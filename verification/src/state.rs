use std::sync::Arc;
use vstd::prelude::*;

use crate::error::SudachiError;
use crate::input::InputText;
use crate::matcher::PosMatcher;
use crate::types::{
    component, components_levels, part_of_speech_from_components, InfoSubset,
    SudachiPartOfSpeech, SudachiPartialPartOfSpeech, SudachiProjection, SudachiSplitMode, WordId,
    WordInfo, WordInfoView,
};

verus! {

/// Another handle on the value behind `shared` (`Arc::clone`); the contract claims that the
/// new handle refers to the same value.
#[verifier::external_body]
pub(crate) fn share<T>(shared: &Arc<T>) -> (r: Arc<T>)
    ensures
        r == *shared,
{
    Arc::clone(shared)
}

/// Whether the two handles refer to one allocation (`Arc::ptr_eq`); the contract claims only
/// that handles on one allocation refer to equal values, as the answer depends on addresses.
#[verifier::external_body]
fn same_allocation<T>(left: &Arc<T>, right: &Arc<T>) -> (r: bool)
    ensures
        r ==> *left == *right,
{
    Arc::ptr_eq(left, right)
}

/// The text that std's `Debug` gives for an optional string (`format!("{:?}", ..)`); it is
/// a function of the option's characters alone.
pub uninterp spec fn option_debug_text(o: Option<Seq<char>>) -> Seq<char>;

/// The characters of an optional string.
pub open spec fn option_chars(o: Option<String>) -> Option<Seq<char>> {
    match o {
        Some(s) => Some(s@),
        None => None,
    }
}

/// The `Debug` text of a pattern: the type's name, then each level with its field name and
/// the `Debug` text of its optional string, in declaration order.
pub open spec fn pattern_debug(p: SudachiPartialPartOfSpeech) -> Seq<char> {
    "SudachiPartialPartOfSpeech { level1: "@ + option_debug_text(option_chars(p.level1))
        + ", level2: "@ + option_debug_text(option_chars(p.level2)) + ", level3: "@
        + option_debug_text(option_chars(p.level3)) + ", level4: "@ + option_debug_text(
        option_chars(p.level4),
    ) + ", conjugation_type: "@ + option_debug_text(option_chars(p.conjugation_type))
        + ", conjugation_form: "@ + option_debug_text(option_chars(p.conjugation_form)) + " }"@
}

/// std's `Debug` text of an optional string (`format!("{:?}", ..)`); the contract claims
/// that the text depends on the option's characters alone, and names it.
#[verifier::external_body]
fn option_debug(o: &Option<String>) -> (r: String)
    ensures
        r@ == option_debug_text(option_chars(*o)),
{
    format!("{:?}", o)
}

/// The `Debug` text of a pattern, put together from its levels.
fn describe_pattern(pattern: &SudachiPartialPartOfSpeech) -> (r: String)
    ensures
        r@ == pattern_debug(*pattern),
{
    let mut r = string_of("SudachiPartialPartOfSpeech { level1: ");
    let d1 = option_debug(&pattern.level1);
    r.append(d1.as_str());
    r.append(", level2: ");
    let d2 = option_debug(&pattern.level2);
    r.append(d2.as_str());
    r.append(", level3: ");
    let d3 = option_debug(&pattern.level3);
    r.append(d3.as_str());
    r.append(", level4: ");
    let d4 = option_debug(&pattern.level4);
    r.append(d4.as_str());
    r.append(", conjugation_type: ");
    let d5 = option_debug(&pattern.conjugation_type);
    r.append(d5.as_str());
    r.append(", conjugation_form: ");
    let d6 = option_debug(&pattern.conjugation_form);
    r.append(d6.as_str());
    r.append(" }");
    r
}

/// The message with which an operation on objects of two dictionaries is refused.
pub open spec fn different_dictionaries_message() -> Seq<char> {
    "objects were created from different dictionaries"@
}

/// The verbs, adjectives and auxiliary verbs: the parts of speech whose surface is kept by
/// the projections that keep conjugating words.
pub open spec fn is_conjugating(pos: Seq<String>) -> bool {
    pos.len() > 0 && (pos[0]@ == "動詞"@ || pos[0]@ == "形容詞"@ || pos[0]@ == "助動詞"@)
}

/// The parts of speech whose conjugation form is `*`.
pub open spec fn has_no_conjugation(pos: Seq<String>) -> bool {
    pos.len() > 5 && pos[5]@ == "*"@
}

/// A verb, adjective or auxiliary verb, by its first level.
pub open spec fn conjugating_level(p: SudachiPartOfSpeech) -> bool {
    p.level1@ == "動詞"@ || p.level1@ == "形容詞"@ || p.level1@ == "助動詞"@
}

/// A part of speech whose conjugation form is `*`.
pub open spec fn no_conjugation_level(p: SudachiPartOfSpeech) -> bool {
    p.conjugation_form@ == "*"@
}

/// The identifiers (truncated to 16 bits) of the parts of speech of `pos` that are
/// conjugating (`conjugating`) or have conjugation form `*` (otherwise).
pub open spec fn listed_ids(pos: Seq<SudachiPartOfSpeech>, conjugating: bool) -> Set<u16> {
    Set::new(
        |id: u16|
            exists|idx: int|
                0 <= idx < pos.len() && idx as u16 == id && (if conjugating {
                    conjugating_level(#[trigger] pos[idx])
                } else {
                    no_conjugation_level(pos[idx])
                }),
    )
}

/// Which of the two precomputed predicates is meant.
pub open spec fn precomputed_pred(conjugating: bool, pos: Seq<String>) -> bool {
    if conjugating {
        is_conjugating(pos)
    } else {
        has_no_conjugation(pos)
    }
}

/// The identifiers (truncated to 16 bits) of the entries of `pos_list` that satisfy the
/// predicate.
pub open spec fn precomputed_ids(pos_list: Seq<Vec<String>>, conjugating: bool) -> Set<u16> {
    Set::new(
        |id: u16|
            exists|idx: int|
                0 <= idx < pos_list.len() && idx as u16 == id && #[trigger] precomputed_pred(
                    conjugating,
                    pos_list[idx]@,
                ),
    )
}

fn string_of(text: &str) -> (r: String)
    ensures
        r@ == text@,
{
    String::from_str(text)
}

fn holds_predicate(pos: &Vec<String>, conjugating: bool) -> (r: bool)
    ensures
        r == precomputed_pred(conjugating, pos@),
{
    if conjugating {
        if pos.len() == 0 {
            return false;
        }
        let verb = string_of("動詞");
        let adjective = string_of("形容詞");
        let auxiliary = string_of("助動詞");
        pos[0] == verb || pos[0] == adjective || pos[0] == auxiliary
    } else {
        if pos.len() <= 5 {
            return false;
        }
        let star = string_of("*");
        pos[5] == star
    }
}

/// The matcher of the identifiers of the entries of `pos_list` that satisfy the predicate
/// selected by `conjugating`.
fn build_precomputed_matcher(pos_list: &Vec<Vec<String>>, conjugating: bool) -> (r: PosMatcher)
    ensures
        r@ == precomputed_ids(pos_list@, conjugating),
{
    let mut ids: Vec<u16> = Vec::new();
    let n = pos_list.len();
    for idx in 0..n
        invariant
            n == pos_list.len(),
            forall|id: u16|
                ids@.contains(id) <==> exists|k: int|
                    0 <= k < idx && k as u16 == id && #[trigger] precomputed_pred(
                        conjugating,
                        pos_list@[k]@,
                    ),
    {
        let ghost before = ids@;
        if holds_predicate(&pos_list[idx], conjugating) {
            ids.push(idx as u16);
        }
        assert forall|id: u16|
            ids@.contains(id) <==> exists|k: int|
                0 <= k < idx + 1 && k as u16 == id && #[trigger] precomputed_pred(
                    conjugating,
                    pos_list@[k]@,
                ) by {
            if ids@.contains(id) {
                let j = choose|j: int| 0 <= j < ids@.len() && #[trigger] ids@[j] == id;
                if j < before.len() {
                    assert(before[j] == id);
                    assert(before.contains(id));
                } else {
                    assert(precomputed_pred(conjugating, pos_list@[idx as int]@));
                }
            }
            if exists|k: int|
                0 <= k < idx + 1 && k as u16 == id && #[trigger] precomputed_pred(
                    conjugating,
                    pos_list@[k]@,
                ) {
                let k = choose|k: int|
                    0 <= k < idx + 1 && k as u16 == id && #[trigger] precomputed_pred(
                        conjugating,
                        pos_list@[k]@,
                    );
                if k < idx {
                    assert(before.contains(id));
                    let j = choose|j: int| 0 <= j < before.len() && #[trigger] before[j] == id;
                    assert(ids@[j] == id);
                } else {
                    assert(ids@[ids@.len() - 1] == id);
                }
            }
        }
    }
    let r = PosMatcher::new(ids);
    assert(r@ =~= precomputed_ids(pos_list@, conjugating));
    r
}

/// What the bindings keep of a loaded dictionary: its default projection, its list of parts
/// of speech, and the two matchers that the projections consult.
pub struct DictionaryState {
    pub default_projection: SudachiProjection,
    pub part_of_speech: Vec<SudachiPartOfSpeech>,
    pub conjugating_matcher: PosMatcher,
    pub normalized_nouns_matcher: PosMatcher,
}

impl SudachiPartOfSpeech {
    /// A copy of the part of speech.
    pub fn duplicate(&self) -> (r: SudachiPartOfSpeech)
        ensures
            r == *self,
    {
        SudachiPartOfSpeech {
            level1: self.level1.clone(),
            level2: self.level2.clone(),
            level3: self.level3.clone(),
            level4: self.level4.clone(),
            conjugation_type: self.conjugation_type.clone(),
            conjugation_form: self.conjugation_form.clone(),
        }
    }
}

impl DictionaryState {
    /// The state of a dictionary whose grammar lists `pos_list` as its parts of speech.
    pub fn new(pos_list: Vec<Vec<String>>, default_projection: SudachiProjection) -> (r:
        DictionaryState)
        requires
            forall|i: int| 0 <= i < pos_list@.len() ==> (#[trigger] pos_list@[i])@.len() > 0,
        ensures
            r.default_projection == default_projection,
            r.part_of_speech@.len() == pos_list@.len(),
            forall|i: int|
                0 <= i < pos_list@.len() ==> #[trigger] r.part_of_speech@[i].levels()
                    == components_levels(pos_list@[i]@),
            r.conjugating_matcher@ == precomputed_ids(pos_list@, true),
            r.normalized_nouns_matcher@ == precomputed_ids(pos_list@, false),
            r.matchers_consistent(),
    {
        let mut part_of_speech: Vec<SudachiPartOfSpeech> = Vec::new();
        let n = pos_list.len();
        for i in 0..n
            invariant
                n == pos_list.len(),
                part_of_speech@.len() == i,
                forall|j: int|
                    0 <= j < i ==> #[trigger] part_of_speech@[j].levels() == components_levels(
                        pos_list@[j]@,
                    ),
        {
            part_of_speech.push(part_of_speech_from_components(pos_list[i].as_slice()));
        }
        let conjugating_matcher = build_precomputed_matcher(&pos_list, true);
        let normalized_nouns_matcher = build_precomputed_matcher(&pos_list, false);
        let r = DictionaryState {
            default_projection,
            part_of_speech,
            conjugating_matcher,
            normalized_nouns_matcher,
        };
        proof {
            reveal_strlit("*");
            assert forall|idx: int| 0 <= idx < pos_list@.len() implies {
                &&& is_conjugating(pos_list@[idx]@) == conjugating_level(
                    #[trigger] r.part_of_speech@[idx],
                )
                &&& has_no_conjugation(pos_list@[idx]@) == no_conjugation_level(
                    r.part_of_speech@[idx],
                )
            } by {
                let p = r.part_of_speech@[idx];
                assert(p.levels() == components_levels(pos_list@[idx]@));
                assert(p.levels()[0] == p.level1@);
                assert(p.levels()[5] == p.conjugation_form@);
                assert(components_levels(pos_list@[idx]@)[0] == component(pos_list@[idx]@, 0));
                assert(components_levels(pos_list@[idx]@)[5] == component(pos_list@[idx]@, 5));
                if pos_list@[idx]@.len() <= 5 {
                    assert(p.conjugation_form@.len() == 0);
                    assert("*"@.len() == 1);
                }
            }
            assert forall|id: u16| #[trigger]
                r.conjugating_matcher@.contains(id) == exists|idx: int|
                    0 <= idx < r.part_of_speech@.len() && idx as u16 == id && conjugating_level(
                        #[trigger] r.part_of_speech@[idx],
                    ) by {
                if r.conjugating_matcher@.contains(id) {
                    let idx = choose|idx: int|
                        0 <= idx < pos_list@.len() && idx as u16 == id && #[trigger] precomputed_pred(
                            true,
                            pos_list@[idx]@,
                        );
                    assert(conjugating_level(r.part_of_speech@[idx]));
                }
                if exists|idx: int|
                    0 <= idx < r.part_of_speech@.len() && idx as u16 == id && conjugating_level(
                        #[trigger] r.part_of_speech@[idx],
                    ) {
                    let idx = choose|idx: int|
                        0 <= idx < r.part_of_speech@.len() && idx as u16 == id && conjugating_level(
                            #[trigger] r.part_of_speech@[idx],
                        );
                    assert(precomputed_pred(true, pos_list@[idx]@));
                }
            }
            assert forall|id: u16| #[trigger]
                r.normalized_nouns_matcher@.contains(id) == exists|idx: int|
                    0 <= idx < r.part_of_speech@.len() && idx as u16 == id && no_conjugation_level(
                        #[trigger] r.part_of_speech@[idx],
                    ) by {
                if r.normalized_nouns_matcher@.contains(id) {
                    let idx = choose|idx: int|
                        0 <= idx < pos_list@.len() && idx as u16 == id && #[trigger] precomputed_pred(
                            false,
                            pos_list@[idx]@,
                        );
                    assert(no_conjugation_level(r.part_of_speech@[idx]));
                }
                if exists|idx: int|
                    0 <= idx < r.part_of_speech@.len() && idx as u16 == id && no_conjugation_level(
                        #[trigger] r.part_of_speech@[idx],
                    ) {
                    let idx = choose|idx: int|
                        0 <= idx < r.part_of_speech@.len() && idx as u16 == id && no_conjugation_level(
                            #[trigger] r.part_of_speech@[idx],
                        );
                    assert(precomputed_pred(false, pos_list@[idx]@));
                }
            }
            assert(r.conjugating_matcher@ =~= listed_ids(r.part_of_speech@, true));
            assert(r.normalized_nouns_matcher@ =~= listed_ids(r.part_of_speech@, false));
        }
        r
    }

    /// The two matchers hold exactly the identifiers of the listed parts of speech that they
    /// are about: the verbs, adjectives and auxiliary verbs, and those whose conjugation form
    /// is `*`.
    pub open spec fn matchers_consistent(&self) -> bool {
        &&& self.conjugating_matcher@ == listed_ids(self.part_of_speech@, true)
        &&& self.normalized_nouns_matcher@ == listed_ids(self.part_of_speech@, false)
    }

    /// The part of speech with identifier `pos_id`, if the dictionary lists one.
    pub fn part_of_speech_for_id(&self, pos_id: u16) -> (r: Option<SudachiPartOfSpeech>)
        ensures
            r == (if (pos_id as int) < self.part_of_speech@.len() {
                Some(self.part_of_speech@[pos_id as int])
            } else {
                None::<SudachiPartOfSpeech>
            }),
    {
        let idx = pos_id as usize;
        if idx < self.part_of_speech.len() {
            Some(self.part_of_speech[idx].duplicate())
        } else {
            None
        }
    }
}

/// The identifiers of the parts of speech of `pos` that some pattern admits.
pub open spec fn matched_ids(
    pos: Seq<SudachiPartOfSpeech>,
    patterns: Seq<SudachiPartialPartOfSpeech>,
) -> Set<u16> {
    Set::new(
        |id: u16|
            exists|k: int, idx: int|
                0 <= k < patterns.len() && 0 <= idx < pos.len() && idx as u16 == id
                    && #[trigger] patterns[k].spec_matches(#[trigger] pos[idx]),
    )
}

/// The pattern admits at least one part of speech of `pos`.
pub open spec fn pattern_hits(pos: Seq<SudachiPartOfSpeech>, pattern: SudachiPartialPartOfSpeech) -> bool {
    exists|idx: int| 0 <= idx < pos.len() && #[trigger] pattern.spec_matches(pos[idx])
}

/// The identifiers of the parts of speech of `pos` that `pattern` admits.
pub open spec fn pattern_ids(pos: Seq<SudachiPartOfSpeech>, pattern: SudachiPartialPartOfSpeech) -> Set<u16> {
    Set::new(
        |id: u16|
            exists|idx: int|
                0 <= idx < pos.len() && idx as u16 == id && #[trigger] pattern.spec_matches(pos[idx]),
    )
}

/// The identifiers of the parts of speech that `pattern` admits, in the dictionary's order.
fn matching_ids(dictionary: &DictionaryState, pattern: &SudachiPartialPartOfSpeech) -> (r: Vec<u16>)
    ensures
        r@.to_set() == pattern_ids(dictionary.part_of_speech@, *pattern),
        (r@.len() == 0) == !pattern_hits(dictionary.part_of_speech@, *pattern),
{
    let ghost pos = dictionary.part_of_speech@;
    let mut found: Vec<u16> = Vec::new();
    let nd = dictionary.part_of_speech.len();
    for idx in 0..nd
        invariant
            nd == pos.len(),
            pos == dictionary.part_of_speech@,
            (found@.len() == 0) == (forall|m: int|
                0 <= m < idx ==> !#[trigger] pattern.spec_matches(pos[m])),
            forall|id: u16|
                found@.contains(id) <==> exists|m: int|
                    0 <= m < idx && m as u16 == id && #[trigger] pattern.spec_matches(pos[m]),
    {
        let ghost prev = found@;
        if pattern.matches(&dictionary.part_of_speech[idx]) {
            found.push(idx as u16);
        }
        assert forall|id: u16|
            found@.contains(id) <==> exists|m: int|
                0 <= m < idx + 1 && m as u16 == id && #[trigger] pattern.spec_matches(pos[m]) by {
            if found@.contains(id) {
                let j = choose|j: int| 0 <= j < found@.len() && #[trigger] found@[j] == id;
                if j < prev.len() {
                    assert(prev[j] == id);
                    assert(prev.contains(id));
                }
            }
            if exists|m: int|
                0 <= m < idx + 1 && m as u16 == id && #[trigger] pattern.spec_matches(pos[m]) {
                let m = choose|m: int|
                    0 <= m < idx + 1 && m as u16 == id && #[trigger] pattern.spec_matches(pos[m]);
                if m < idx {
                    assert(prev.contains(id));
                    let j = choose|j: int| 0 <= j < prev.len() && #[trigger] prev[j] == id;
                    assert(found@[j] == id);
                } else {
                    assert(found@[found@.len() - 1] == id);
                }
            }
        }
    }
    assert(found@.to_set() =~= pattern_ids(pos, *pattern));
    found
}

/// The matcher of every part of speech of the dictionary that one of `patterns` admits.
/// It fails, with an invalid-argument error, exactly when some pattern admits none.
pub fn build_pos_matcher(dictionary: &DictionaryState, patterns: &[SudachiPartialPartOfSpeech]) -> (r:
    Result<PosMatcher, SudachiError>)
    ensures
        r.is_ok() == (forall|k: int|
            0 <= k < patterns@.len() ==> #[trigger] pattern_hits(
                dictionary.part_of_speech@,
                patterns@[k],
            )),
        r matches Ok(m) ==> m@ == matched_ids(dictionary.part_of_speech@, patterns@),
        r matches Err(e) ==> e matches SudachiError::InvalidArgument(m) && exists|k: int|
            0 <= k < patterns@.len() && !pattern_hits(dictionary.part_of_speech@, patterns@[k])
                && (forall|j: int|
                0 <= j < k ==> #[trigger] pattern_hits(dictionary.part_of_speech@, patterns@[j]))
                && m@ == "POS pattern "@ + pattern_debug(patterns@[k])
                + " did not match any elements"@,
{
    let ghost pos = dictionary.part_of_speech@;
    let mut ids: Vec<u16> = Vec::new();
    let np = patterns.len();
    for k in 0..np
        invariant
            np == patterns@.len(),
            pos == dictionary.part_of_speech@,
            forall|j: int| 0 <= j < k ==> #[trigger] pattern_hits(pos, patterns@[j]),
            forall|id: u16|
                ids@.contains(id) <==> exists|j: int, idx: int|
                    0 <= j < k && 0 <= idx < pos.len() && idx as u16 == id
                        && #[trigger] patterns@[j].spec_matches(#[trigger] pos[idx]),
    {
        let pattern = &patterns[k];
        let found = matching_ids(dictionary, pattern);
        if found.len() == 0 {
            let mut message = string_of("POS pattern ");
            let described = describe_pattern(pattern);
            message.append(described.as_str());
            message.append(" did not match any elements");
            assert(message@ == "POS pattern "@ + pattern_debug(patterns@[k as int])
                + " did not match any elements"@);
            assert(!pattern_hits(pos, patterns@[k as int]));
            return Err(SudachiError::invalid_argument(message));
        }
        let ghost before = ids@;
        let nf = found.len();
        for f in 0..nf
            invariant
                nf == found@.len(),
                ids@ == before + found@.take(f as int),
        {
            ids.push(found[f]);
            assert(ids@ =~= before + found@.take(f + 1));
        }
        assert(ids@ =~= before + found@);
        assert forall|id: u16|
            ids@.contains(id) <==> exists|j: int, idx: int|
                0 <= j < k + 1 && 0 <= idx < pos.len() && idx as u16 == id
                    && #[trigger] patterns@[j].spec_matches(#[trigger] pos[idx]) by {
            if ids@.contains(id) {
                let q = choose|q: int| 0 <= q < ids@.len() && #[trigger] ids@[q] == id;
                if q < before.len() {
                    assert(before[q] == id);
                    assert(before.contains(id));
                } else {
                    assert(found@[q - before.len()] == id);
                    assert(found@.to_set().contains(id));
                    assert(pattern_ids(pos, *pattern).contains(id));
                    let m = choose|m: int|
                        0 <= m < pos.len() && m as u16 == id && #[trigger] pattern.spec_matches(pos[m]);
                    assert(patterns@[k as int].spec_matches(pos[m]));
                }
            }
            if exists|j: int, idx: int|
                0 <= j < k + 1 && 0 <= idx < pos.len() && idx as u16 == id
                    && #[trigger] patterns@[j].spec_matches(#[trigger] pos[idx]) {
                let (j, m) = choose|j: int, idx: int|
                    0 <= j < k + 1 && 0 <= idx < pos.len() && idx as u16 == id
                        && #[trigger] patterns@[j].spec_matches(#[trigger] pos[idx]);
                if j == k {
                    assert(pattern.spec_matches(pos[m]));
                    assert(pattern_ids(pos, *pattern).contains(id));
                    assert(found@.to_set().contains(id));
                    let q = choose|q: int| 0 <= q < found@.len() && #[trigger] found@[q] == id;
                    assert(ids@[before.len() + q] == id);
                } else {
                    assert(before.contains(id));
                    let q = choose|q: int| 0 <= q < before.len() && #[trigger] before[q] == id;
                    assert(ids@[q] == id);
                }
            }
        }
    }
    let r = PosMatcher::new(ids);
    assert(r@ =~= matched_ids(pos, patterns@));
    Ok(r)
}

/// Whether two handles on dictionary states refer to one dictionary.  It fails with an
/// invalid-argument error where they do not; where it succeeds, the two states are equal.
pub fn ensure_same_dictionary(left: &Arc<DictionaryState>, right: &Arc<DictionaryState>) -> (r:
    Result<(), SudachiError>)
    ensures
        r is Ok ==> *left == *right,
        r matches Err(e) ==> e matches SudachiError::InvalidArgument(m) && m@
            == different_dictionaries_message(),
{
    if same_allocation(left, right) {
        Ok(())
    } else {
        Err(
            SudachiError::invalid_argument(
                string_of("objects were created from different dictionaries"),
            ),
        )
    }
}

/// A morpheme as the bindings keep it: its word information and identifier, its cost, and its
/// place in the modified and in the original text.
pub struct MorphemeNodeSnapshot {
    pub raw_surface: String,
    pub word_info: WordInfo,
    pub word_id: WordId,
    pub total_cost: i32,
    pub original_begin_char: usize,
    pub original_end_char: usize,
    pub modified_begin_char: usize,
    pub modified_end_char: usize,
    pub modified_begin_byte: usize,
    pub modified_end_byte: usize,
}

/// The mathematical content of a [`MorphemeNodeSnapshot`].
pub struct MorphemeNodeView {
    pub raw_surface: Seq<char>,
    pub word_info: WordInfoView,
    pub word_id: WordId,
    pub total_cost: i32,
    pub original_begin_char: usize,
    pub original_end_char: usize,
    pub modified_begin_char: usize,
    pub modified_end_char: usize,
    pub modified_begin_byte: usize,
    pub modified_end_byte: usize,
}

impl View for MorphemeNodeSnapshot {
    type V = MorphemeNodeView;

    open spec fn view(&self) -> MorphemeNodeView {
        MorphemeNodeView {
            raw_surface: self.raw_surface@,
            word_info: self.word_info@,
            word_id: self.word_id,
            total_cost: self.total_cost,
            original_begin_char: self.original_begin_char,
            original_end_char: self.original_end_char,
            modified_begin_char: self.modified_begin_char,
            modified_end_char: self.modified_end_char,
            modified_begin_byte: self.modified_begin_byte,
            modified_end_byte: self.modified_end_byte,
        }
    }
}

/// The modified character range `begin..end` maps to a range of the original text.
pub open spec fn node_fits(input: InputText, begin: int, end: int) -> bool {
    let table = input.orig_char_table();
    &&& 0 <= begin < table.len()
    &&& 0 <= end < table.len()
    &&& table[begin] <= table[end] <= input.original_chars().len()
}

/// The morpheme with the given word information, identifier and cost that covers the modified
/// characters `begin_char..end_char` and bytes `begin_byte..end_byte`: its original range is
/// the image of its modified range, and its raw surface is the original text there.
pub open spec fn node_view(
    input: InputText,
    word_info: WordInfoView,
    word_id: WordId,
    total_cost: i32,
    begin_char: usize,
    end_char: usize,
    begin_byte: usize,
    end_byte: usize,
) -> MorphemeNodeView {
    let table = input.orig_char_table();
    let original_begin = table[begin_char as int];
    let original_end = table[end_char as int];
    MorphemeNodeView {
        raw_surface: input.original_chars().subrange(original_begin as int, original_end as int),
        word_info,
        word_id,
        total_cost,
        original_begin_char: original_begin,
        original_end_char: original_end,
        modified_begin_char: begin_char,
        modified_end_char: end_char,
        modified_begin_byte: begin_byte,
        modified_end_byte: end_byte,
    }
}

/// A morpheme as the analyser reports it.
pub struct ResultNode {
    pub word_info: WordInfo,
    pub word_id: WordId,
    pub total_cost: i32,
    pub begin: usize,
    pub end: usize,
    pub begin_bytes: usize,
    pub end_bytes: usize,
}

fn internal_error(message: &str) -> (r: SudachiError)
    ensures
        r is Internal,
{
    SudachiError::Internal(string_of(message))
}

impl MorphemeNodeSnapshot {
    /// The morpheme over the given modified range; it fails, with an internal error, exactly
    /// when the tables of `input` do not map that range into the original text.
    pub fn new(
        input: &InputText,
        word_info: WordInfo,
        word_id: WordId,
        total_cost: i32,
        modified_begin_char: usize,
        modified_end_char: usize,
        modified_begin_byte: usize,
        modified_end_byte: usize,
    ) -> (r: Result<MorphemeNodeSnapshot, SudachiError>)
        ensures
            r.is_ok() == node_fits(*input, modified_begin_char as int, modified_end_char as int),
            r matches Ok(n) ==> n@ == node_view(
                *input,
                word_info@,
                word_id,
                total_cost,
                modified_begin_char,
                modified_end_char,
                modified_begin_byte,
                modified_end_byte,
            ),
            r matches Err(e) ==> e is Internal,
    {
        let original_begin_char = match input.to_orig_char_idx(modified_begin_char) {
            Some(c) => c,
            None => return Err(internal_error("morpheme begins outside of the input text")),
        };
        let original_end_char = match input.to_orig_char_idx(modified_end_char) {
            Some(c) => c,
            None => return Err(internal_error("morpheme ends outside of the input text")),
        };
        let raw_surface = match input.original_slice(original_begin_char, original_end_char) {
            Some(s) => s,
            None => return Err(internal_error("morpheme does not map into the original text")),
        };
        Ok(
            MorphemeNodeSnapshot {
                raw_surface,
                word_info,
                word_id,
                total_cost,
                original_begin_char,
                original_end_char,
                modified_begin_char,
                modified_end_char,
                modified_begin_byte,
                modified_end_byte,
            },
        )
    }

    /// The morpheme of an analyser result over `input`.
    pub fn from_result_node(input: &InputText, node: &ResultNode) -> (r: Result<
        MorphemeNodeSnapshot,
        SudachiError,
    >)
        ensures
            r.is_ok() == node_fits(*input, node.begin as int, node.end as int),
            r matches Ok(n) ==> n@ == node_view(
                *input,
                node.word_info@,
                node.word_id,
                node.total_cost,
                node.begin,
                node.end,
                node.begin_bytes,
                node.end_bytes,
            ),
            r matches Err(e) ==> e is Internal,
    {
        MorphemeNodeSnapshot::new(
            input,
            node.word_info.duplicate(),
            node.word_id,
            node.total_cost,
            node.begin,
            node.end,
            node.begin_bytes,
            node.end_bytes,
        )
    }

    /// A copy of the morpheme.
    pub fn duplicate(&self) -> (r: MorphemeNodeSnapshot)
        ensures
            r@ == self@,
    {
        MorphemeNodeSnapshot {
            raw_surface: self.raw_surface.clone(),
            word_info: self.word_info.duplicate(),
            word_id: self.word_id,
            total_cost: self.total_cost,
            original_begin_char: self.original_begin_char,
            original_end_char: self.original_end_char,
            modified_begin_char: self.modified_begin_char,
            modified_end_char: self.modified_end_char,
            modified_begin_byte: self.modified_begin_byte,
            modified_end_byte: self.modified_end_byte,
        }
    }
}

/// The surface that a projection presents for a morpheme.
pub open spec fn projected(
    state: DictionaryState,
    projection: SudachiProjection,
    node: MorphemeNodeView,
) -> Seq<char> {
    let info = node.word_info;
    let keeps_surface = state.conjugating_matcher@.contains(info.pos_id);
    match projection {
        SudachiProjection::Surface => node.raw_surface,
        SudachiProjection::Normalized => info.shown_normalized_form(),
        SudachiProjection::Reading => info.shown_reading_form(),
        SudachiProjection::Dictionary => info.shown_dictionary_form(),
        SudachiProjection::DictionaryAndSurface => if keeps_surface {
            node.raw_surface
        } else {
            info.shown_dictionary_form()
        },
        SudachiProjection::NormalizedAndSurface => if keeps_surface {
            node.raw_surface
        } else {
            info.shown_normalized_form()
        },
        SudachiProjection::NormalizedNouns => if state.normalized_nouns_matcher@.contains(
            info.pos_id,
        ) {
            info.shown_normalized_form()
        } else {
            node.raw_surface
        },
    }
}

impl DictionaryState {
    /// The surface that `projection` presents for `node`.
    pub fn project(&self, projection: SudachiProjection, node: &MorphemeNodeSnapshot) -> (r: String)
        ensures
            r@ == projected(*self, projection, node@),
    {
        match projection {
            SudachiProjection::Surface => node.raw_surface.clone(),
            SudachiProjection::Normalized => node.word_info.normalized_form(),
            SudachiProjection::Reading => node.word_info.reading_form(),
            SudachiProjection::Dictionary => node.word_info.dictionary_form(),
            SudachiProjection::DictionaryAndSurface => {
                if self.conjugating_matcher.matches_id(node.word_info.pos_id) {
                    node.raw_surface.clone()
                } else {
                    node.word_info.dictionary_form()
                }
            },
            SudachiProjection::NormalizedAndSurface => {
                if self.conjugating_matcher.matches_id(node.word_info.pos_id) {
                    node.raw_surface.clone()
                } else {
                    node.word_info.normalized_form()
                }
            },
            SudachiProjection::NormalizedNouns => {
                if self.normalized_nouns_matcher.matches_id(node.word_info.pos_id) {
                    node.word_info.normalized_form()
                } else {
                    node.raw_surface.clone()
                }
            },
        }
    }
}

/// No morpheme of `nodes` has an original range that ends before it begins.
pub open spec fn spans_ordered(nodes: Seq<MorphemeNodeSnapshot>) -> bool {
    forall|i: int|
        0 <= i < nodes.len() ==> (#[trigger] nodes[i]).original_begin_char
            <= nodes[i].original_end_char
}

/// A list of morphemes together with the dictionary, the text and the settings it was built
/// with.
pub struct MorphemeListSnapshot {
    pub dictionary: Arc<DictionaryState>,
    pub input: Arc<InputText>,
    pub nodes: Vec<MorphemeNodeSnapshot>,
    pub subset: InfoSubset,
    pub projection: SudachiProjection,
}

/// A split into the given mode is allowed by the loaded fields.
pub open spec fn split_allowed(subset: InfoSubset, mode: SudachiSplitMode) -> bool {
    match mode {
        SudachiSplitMode::A => subset.split_a,
        SudachiSplitMode::B => subset.split_b,
        SudachiSplitMode::C => true,
    }
}

/// The identifiers of the units into which a word splits in the given mode.
pub open spec fn split_unit_ids(info: WordInfoView, mode: SudachiSplitMode) -> Seq<WordId> {
    match mode {
        SudachiSplitMode::A => info.a_unit_split,
        SudachiSplitMode::B => info.b_unit_split,
        SudachiSplitMode::C => Seq::empty(),
    }
}

/// The modified byte offset at which the `i`-th unit of a split begins.
pub open spec fn piece_byte_begin(start: int, infos: Seq<WordInfo>, i: int) -> int
    decreases i,
{
    if i <= 0 {
        start
    } else {
        piece_byte_begin(start, infos, i - 1) + infos[i - 1].head_word_length
    }
}

/// The modified byte offset at which the `i`-th unit of a split of `node` ends: the next
/// unit's beginning, or the end of the node for the last unit.
pub open spec fn piece_byte_end(node: MorphemeNodeView, infos: Seq<WordInfo>, i: int) -> int {
    if i == infos.len() - 1 {
        node.modified_end_byte as int
    } else {
        piece_byte_begin(node.modified_begin_byte as int, infos, i + 1)
    }
}

/// The modified character offset at which the `i`-th unit begins.
pub open spec fn piece_char_begin(
    node: MorphemeNodeView,
    input: InputText,
    infos: Seq<WordInfo>,
    i: int,
) -> int {
    if i == 0 {
        node.modified_begin_char as int
    } else {
        input.char_table()[piece_byte_begin(node.modified_begin_byte as int, infos, i)] as int
    }
}

/// The modified character offset at which the `i`-th unit ends.
pub open spec fn piece_char_end(
    node: MorphemeNodeView,
    input: InputText,
    infos: Seq<WordInfo>,
    i: int,
) -> int {
    if i == infos.len() - 1 {
        node.modified_end_char as int
    } else {
        input.char_table()[piece_byte_begin(node.modified_begin_byte as int, infos, i + 1)] as int
    }
}

/// The `i`-th unit can be placed: the next unit's first byte is covered by the byte table,
/// and the unit's character range maps into the original text.
pub open spec fn piece_ok(
    node: MorphemeNodeView,
    input: InputText,
    infos: Seq<WordInfo>,
    i: int,
) -> bool {
    &&& i < infos.len() - 1 ==> piece_byte_begin(node.modified_begin_byte as int, infos, i + 1)
        < input.char_table().len()
    &&& node_fits(input, piece_char_begin(node, input, infos, i), piece_char_end(node, input, infos, i))
}

/// The `i`-th unit of the split of `node` with identifier `id`.
pub open spec fn piece_view(
    node: MorphemeNodeView,
    input: InputText,
    infos: Seq<WordInfo>,
    id: WordId,
    i: int,
) -> MorphemeNodeView {
    node_view(
        input,
        infos[i]@,
        id,
        i32::MAX,
        piece_char_begin(node, input, infos, i) as usize,
        piece_char_end(node, input, infos, i) as usize,
        piece_byte_begin(node.modified_begin_byte as int, infos, i) as usize,
        piece_byte_end(node, infos, i) as usize,
    )
}

/// Every unit of the split can be placed.
pub open spec fn split_fits(node: MorphemeNodeView, input: InputText, infos: Seq<WordInfo>) -> bool {
    forall|i: int| 0 <= i < infos.len() ==> #[trigger] piece_ok(node, input, infos, i)
}

/// The loaded fields admit a split in `mode`; otherwise the error names the missing field.
pub fn ensure_split_subset(subset: &InfoSubset, required: &InfoSubset, field_name: &str) -> (r:
    Result<(), SudachiError>)
    ensures
        r.is_ok() == subset.spec_contains(*required),
        r matches Err(e) ==> e == SudachiError::InvalidArgument(e->InvalidArgument_0) && e->InvalidArgument_0@
            == "split requires "@ + field_name@ + " to be loaded in tokenizer fields"@,
{
    if subset.contains(required) {
        Ok(())
    } else {
        let mut message = string_of("split requires ");
        message.append(field_name);
        message.append(" to be loaded in tokenizer fields");
        Err(SudachiError::invalid_argument(message))
    }
}

impl MorphemeListSnapshot {
    /// No morpheme's original range ends before it begins.
    pub open spec fn wf(&self) -> bool {
        spans_ordered(self.nodes@)
    }

    /// The same list with `nodes` in place of its morphemes.
    pub fn with_nodes(&self, nodes: Vec<MorphemeNodeSnapshot>) -> (s: MorphemeListSnapshot)
        ensures
            s.dictionary == self.dictionary,
            s.input == self.input,
            s.nodes@ == nodes@,
            s.subset == self.subset,
            s.projection == self.projection,
            s.wf() == spans_ordered(nodes@),
    {
        MorphemeListSnapshot {
            dictionary: share(&self.dictionary),
            input: share(&self.input),
            nodes,
            subset: self.subset,
            projection: self.projection,
        }
    }

    /// Why a split of morpheme `index` in `mode` is refused: the morpheme does not exist, or
    /// the field that the split needs was not loaded.
    pub open spec fn split_refusal(&self, index: usize, mode: SudachiSplitMode) -> Seq<char> {
        if index >= self.nodes@.len() {
            "morpheme index was out of range"@
        } else {
            match mode {
                SudachiSplitMode::A => "split requires "@ + "splitA"@
                    + " to be loaded in tokenizer fields"@,
                _ => "split requires "@ + "splitB"@ + " to be loaded in tokenizer fields"@,
            }
        }
    }

    /// The identifiers of the units into which morpheme `index` splits in `mode`.  It fails
    /// with an invalid-argument error where there is no such morpheme, or where the field
    /// that the split needs was not loaded.
    pub fn split_plan(&self, index: usize, mode: SudachiSplitMode) -> (r: Result<
        Vec<WordId>,
        SudachiError,
    >)
        ensures
            r.is_ok() == (index < self.nodes@.len() && split_allowed(self.subset, mode)),
            r matches Ok(ids) ==> ids@ == split_unit_ids(self.nodes@[index as int].word_info@, mode),
            r matches Err(e) ==> e matches SudachiError::InvalidArgument(m) && m@
                == self.split_refusal(index, mode),
    {
        if index >= self.nodes.len() {
            return Err(SudachiError::invalid_argument(string_of("morpheme index was out of range")));
        }
        let node = &self.nodes[index];
        match mode {
            SudachiSplitMode::A => {
                let mut required = InfoSubset::empty();
                required.split_a = true;
                match ensure_split_subset(&self.subset, &required, "splitA") {
                    Ok(()) => {},
                    Err(e) => return Err(e),
                }
                Ok(crate::types::copy_vec(&node.word_info.a_unit_split))
            },
            SudachiSplitMode::B => {
                let mut required = InfoSubset::empty();
                required.split_b = true;
                match ensure_split_subset(&self.subset, &required, "splitB") {
                    Ok(()) => {},
                    Err(e) => return Err(e),
                }
                Ok(crate::types::copy_vec(&node.word_info.b_unit_split))
            },
            SudachiSplitMode::C => Ok(Vec::new()),
        }
    }

    /// The units into which morpheme `index` splits in `mode`, given `infos`, the word
    /// information of each unit identifier that [`Self::split_plan`] names, in order.
    ///
    /// Each unit begins where the previous one ends (the first where the morpheme begins);
    /// a unit other than the last ends `head_word_length` bytes after its beginning, at the
    /// character that the byte table names; the last ends where the morpheme ends.  Units
    /// cost `i32::MAX`.  It fails as the plan does, and with an internal error where `infos`
    /// does not fit the plan or a unit cannot be placed.
    pub fn split_node(&self, index: usize, mode: SudachiSplitMode, infos: &Vec<WordInfo>) -> (r:
        Result<Vec<MorphemeNodeSnapshot>, SudachiError>)
        ensures
            ({
                let ok_plan = index < self.nodes@.len() && split_allowed(self.subset, mode);
                let node = self.nodes@[index as int]@;
                let ids = split_unit_ids(node.word_info, mode);
                &&& r.is_ok() == (ok_plan && (ids.len() == 0 || (infos@.len() == ids.len()
                    && split_fits(node, *self.input, infos@))))
                &&& r matches Err(e) ==> (e is InvalidArgument <==> !ok_plan)
                &&& r matches Err(e) ==> (e is InvalidArgument || e is Internal)
                &&& r matches Err(e) ==> (e matches SudachiError::InvalidArgument(m) ==> m@
                    == self.split_refusal(index, mode))
                &&& r matches Ok(v) ==> {
                    &&& v@.len() == ids.len()
                    &&& forall|i: int|
                        0 <= i < v@.len() ==> (#[trigger] v@[i])@ == piece_view(
                            node,
                            *self.input,
                            infos@,
                            ids[i],
                            i,
                        )
                }
            }),
    {
        let ids = match self.split_plan(index, mode) {
            Ok(ids) => ids,
            Err(e) => return Err(e),
        };
        let ghost node = self.nodes@[index as int]@;
        let n = ids.len();
        if n == 0 {
            return Ok(Vec::new());
        }
        if infos.len() != n {
            return Err(internal_error("word information does not fit the split"));
        }
        let input: &InputText = &self.input;
        let node_ref = &self.nodes[index];
        let mut byte_offset = node_ref.modified_begin_byte;
        let mut char_offset = node_ref.modified_begin_char;
        let mut result: Vec<MorphemeNodeSnapshot> = Vec::new();
        for idx in 0..n
            invariant
                n == ids@.len(),
                n == infos@.len(),
                n > 0,
                index < self.nodes@.len(),
                split_allowed(self.subset, mode),
                node == self.nodes@[index as int]@,
                node == node_ref@,
                *input == *self.input,
                ids@ == split_unit_ids(node.word_info, mode),
                result@.len() == idx,
                idx < n ==> byte_offset == piece_byte_begin(
                    node.modified_begin_byte as int,
                    infos@,
                    idx as int,
                ),
                idx < n ==> char_offset == piece_char_begin(node, *input, infos@, idx as int),
                forall|j: int| 0 <= j < idx ==> #[trigger] piece_ok(node, *input, infos@, j),
                forall|j: int|
                    0 <= j < idx ==> (#[trigger] result@[j])@ == piece_view(
                        node,
                        *input,
                        infos@,
                        ids@[j],
                        j,
                    ),
        {
            let info = &infos[idx];
            proof {
                input.lemma_table_bounds();
                assert(piece_byte_begin(node.modified_begin_byte as int, infos@, idx + 1)
                    == byte_offset + infos@[idx as int].head_word_length);
            }
            let (char_end, byte_end) = if idx + 1 == n {
                (node_ref.modified_end_char, node_ref.modified_end_byte)
            } else {
                let byte_end = match byte_offset.checked_add(info.head_word_length as usize) {
                    Some(b) => b,
                    None => {
                        assert(!piece_ok(node, *input, infos@, idx as int));
                        assert(!split_fits(node, *self.input, infos@));
                        return Err(internal_error("split unit ends beyond the text"));
                    },
                };
                let char_end = match input.ch_idx(byte_end) {
                    Some(c) => c,
                    None => {
                        assert(!piece_ok(node, *input, infos@, idx as int));
                        assert(!split_fits(node, *self.input, infos@));
                        return Err(internal_error("split unit ends beyond the text"));
                    },
                };
                assert(byte_end == piece_byte_begin(node.modified_begin_byte as int, infos@, idx + 1));
                (char_end, byte_end)
            };
            let piece = match MorphemeNodeSnapshot::new(
                input,
                info.duplicate(),
                ids[idx],
                i32::MAX,
                char_offset,
                char_end,
                byte_offset,
                byte_end,
            ) {
                Ok(p) => p,
                Err(e) => {
                    assert(!piece_ok(node, *input, infos@, idx as int));
                        assert(!split_fits(node, *self.input, infos@));
                    return Err(e);
                },
            };
            assert(piece_ok(node, *input, infos@, idx as int));
            result.push(piece);
            char_offset = char_end;
            byte_offset = byte_end;
        }
        Ok(result)
    }
}

/// Every analyser result maps into the original text.
pub open spec fn results_fit(input: InputText, nodes: Seq<ResultNode>) -> bool {
    forall|i: int|
        0 <= i < nodes.len() ==> node_fits(
            input,
            (#[trigger] nodes[i]).begin as int,
            nodes[i].end as int,
        )
}

/// What the analyser produced for a text: the text with its index tables, the morphemes it
/// found, and the fields it loaded.
pub struct Analysis {
    pub input: InputText,
    pub nodes: Vec<ResultNode>,
    pub subset: InfoSubset,
}

/// The morpheme list of an analysis: where the analyser failed with message `m`, a
/// tokenization error carrying `m`; otherwise one morpheme per result node, in order, over the
/// analysed text, with the fields that the analyser reports as loaded.  It fails, with an
/// internal error, exactly when some node does not map into the original text.
pub fn build_tokenized_snapshot(
    dictionary: Arc<DictionaryState>,
    analysis: Result<Analysis, String>,
    projection: SudachiProjection,
) -> (r: Result<Arc<MorphemeListSnapshot>, SudachiError>)
    ensures
        analysis matches Err(m) ==> r == Err::<Arc<MorphemeListSnapshot>, SudachiError>(
            SudachiError::Tokenization(m),
        ),
        analysis matches Ok(a) ==> {
            &&& r.is_ok() == results_fit(a.input, a.nodes@)
            &&& r matches Ok(s) ==> {
                &&& s.dictionary == dictionary
                &&& *s.input == a.input
                &&& s.subset == a.subset
                &&& s.projection == projection
                &&& s.nodes@.len() == a.nodes@.len()
                &&& s.wf()
                &&& forall|i: int|
                    0 <= i < s.nodes@.len() ==> (#[trigger] s.nodes@[i])@ == node_view(
                        a.input,
                        a.nodes@[i].word_info@,
                        a.nodes@[i].word_id,
                        a.nodes@[i].total_cost,
                        a.nodes@[i].begin,
                        a.nodes@[i].end,
                        a.nodes@[i].begin_bytes,
                        a.nodes@[i].end_bytes,
                    )
            }
            &&& r matches Err(e) ==> e is Internal
        },
{
    let outcome = match analysis {
        Ok(a) => a,
        Err(m) => return Err(SudachiError::tokenization(m)),
    };
    let Analysis { input, nodes: result_nodes, subset } = outcome;
    let mut nodes: Vec<MorphemeNodeSnapshot> = Vec::new();
    let n = result_nodes.len();
    for i in 0..n
        invariant
            n == result_nodes@.len(),
            analysis matches Ok(a) && a.input == input && a.nodes@ == result_nodes@ && a.subset
                == subset,
            nodes@.len() == i,
            forall|j: int|
                0 <= j < i ==> node_fits(
                    input,
                    (#[trigger] result_nodes@[j]).begin as int,
                    result_nodes@[j].end as int,
                ),
            forall|j: int|
                0 <= j < i ==> (#[trigger] nodes@[j])@ == node_view(
                    input,
                    result_nodes@[j].word_info@,
                    result_nodes@[j].word_id,
                    result_nodes@[j].total_cost,
                    result_nodes@[j].begin,
                    result_nodes@[j].end,
                    result_nodes@[j].begin_bytes,
                    result_nodes@[j].end_bytes,
                ),
    {
        let node = match MorphemeNodeSnapshot::from_result_node(&input, &result_nodes[i]) {
            Ok(node) => node,
            Err(e) => return Err(e),
        };
        nodes.push(node);
    }
    let snapshot = MorphemeListSnapshot { dictionary, input: Arc::new(input), nodes, subset, projection };
    assert(snapshot.wf());
    Ok(Arc::new(snapshot))
}

/// An entry that the dictionary's lexicon finds at the start of a text: a word and the byte
/// offset at which it ends.
pub struct LookupEntry {
    pub word_id: WordId,
    pub end: usize,
}

/// The identifiers of the entries that cover the whole surface.
pub open spec fn whole_surface_ids(entries: Seq<LookupEntry>, surface_len: int) -> Seq<WordId> {
    entries.filter(|e: LookupEntry| e.end == surface_len).map_values(|e: LookupEntry| e.word_id)
}

/// The identifiers of the entries that end at the end of `surface`, in order.
pub fn whole_surface_entries(surface: &str, entries: &Vec<LookupEntry>) -> (r: Vec<WordId>)
    ensures
        r@ == whole_surface_ids(entries@, surface.len() as int),
{
    broadcast use {Seq::lemma_filter_push, Seq::lemma_push_map_commute};
    let len = surface.len();
    let ghost pred = |e: LookupEntry| e.end == len as int;
    let mut r: Vec<WordId> = Vec::new();
    let n = entries.len();
    for i in 0..n
        invariant
            n == entries@.len(),
            len == surface.len(),
            pred == (|e: LookupEntry| e.end == len as int),
            r@ == entries@.take(i as int).filter(pred).map_values(|e: LookupEntry| e.word_id),
    {
        let ghost before = entries@.take(i as int);
        let ghost e = entries@[i as int];
        assert(entries@.take(i + 1) =~= before.push(e));
        proof {
            before.lemma_filter_push(e, pred);
        }
        assert(before.push(e).filter(pred) == if pred(e) {
            before.filter(pred).push(e)
        } else {
            before.filter(pred)
        });
        if entries[i].end == len {
            r.push(entries[i].word_id);
        }
        assert(r@ =~= entries@.take(i + 1).filter(pred).map_values(|e: LookupEntry| e.word_id));
    }
    assert(entries@.take(n as int) =~= entries@);
    r
}

/// The morpheme list of a dictionary lookup of `surface`, given the analysed text of the
/// surface (or the analyser's failure message), the lexicon's entries at the start of the
/// surface, and the word information of the entries that cover the whole surface (or the
/// dictionary's failure message).
///
/// A failure to analyse the text is a tokenization error, and a failure to read the word
/// information a dictionary error, each carrying the message.  Otherwise the list has one
/// morpheme per entry that covers the whole surface, in the lexicon's order, each spanning the
/// whole surface at cost 0, with every field loaded.  It fails, with an internal error, where
/// the byte table does not cover the end of the surface, where the word information does not
/// fit the entries, or where some entry is found and the surface does not map into the
/// original text.
pub fn build_lookup_snapshot(
    dictionary: Arc<DictionaryState>,
    surface: &str,
    input: Result<InputText, String>,
    entries: &Vec<LookupEntry>,
    infos: Result<Vec<WordInfo>, String>,
    projection: SudachiProjection,
) -> (r: Result<Arc<MorphemeListSnapshot>, SudachiError>)
    ensures
        input matches Err(m) ==> r == Err::<Arc<MorphemeListSnapshot>, SudachiError>(
            SudachiError::Tokenization(m),
        ),
        input matches Ok(text) ==> ({
            let len = surface.len();
            let ids = whole_surface_ids(entries@, len as int);
            let end_chars = text.char_table()[len as int];
            &&& !(len < text.char_table().len()) ==> (r matches Err(e) && e is Internal)
            &&& len < text.char_table().len() ==> match infos {
                Err(m) => r == Err::<Arc<MorphemeListSnapshot>, SudachiError>(
                    SudachiError::Dictionary(m),
                ),
                Ok(v) => {
                    &&& r.is_ok() == (v@.len() == ids.len() && (ids.len() == 0 || node_fits(
                        text,
                        0,
                        end_chars as int,
                    )))
                    &&& r matches Ok(s) ==> {
                        &&& s.dictionary == dictionary
                        &&& *s.input == text
                        &&& s.subset == InfoSubset::uniform(true)
                        &&& s.projection == projection
                        &&& s.nodes@.len() == ids.len()
                        &&& s.wf()
                        &&& forall|i: int|
                            0 <= i < s.nodes@.len() ==> (#[trigger] s.nodes@[i])@ == node_view(
                                text,
                                v@[i]@,
                                ids[i],
                                0,
                                0,
                                end_chars,
                                0,
                                len as usize,
                            )
                    }
                    &&& r matches Err(e) ==> e is Internal
                },
            }
        }),
{
    let text = match input {
        Ok(text) => text,
        Err(m) => return Err(SudachiError::tokenization(m)),
    };
    let len = surface.len();
    let end_chars = match text.ch_idx(len) {
        Some(c) => c,
        None => return Err(internal_error("the surface ends outside of the input text")),
    };
    let ids = whole_surface_entries(surface, entries);
    let found = match infos {
        Ok(v) => v,
        Err(m) => return Err(SudachiError::dictionary(m)),
    };
    let n = ids.len();
    if found.len() != n {
        return Err(internal_error("word information does not fit the lookup"));
    }
    let mut nodes: Vec<MorphemeNodeSnapshot> = Vec::new();
    for i in 0..n
        invariant
            n == ids@.len(),
            n == found@.len(),
            input matches Ok(t) && t == text,
            infos matches Ok(v) && v@ == found@,
            ids@ == whole_surface_ids(entries@, surface.len() as int),
            len == surface.len(),
            len < text.char_table().len(),
            end_chars == text.char_table()[len as int],
            nodes@.len() == i,
            i > 0 ==> node_fits(text, 0, end_chars as int),
            forall|j: int|
                0 <= j < i ==> (#[trigger] nodes@[j])@ == node_view(
                    text,
                    found@[j]@,
                    ids@[j],
                    0,
                    0,
                    end_chars,
                    0,
                    len,
                ),
    {
        let node = match MorphemeNodeSnapshot::new(
            &text,
            found[i].duplicate(),
            ids[i],
            0,
            0,
            end_chars,
            0,
            len,
        ) {
            Ok(node) => node,
            Err(e) => return Err(e),
        };
        nodes.push(node);
    }
    let snapshot = MorphemeListSnapshot {
        dictionary,
        input: Arc::new(text),
        nodes,
        subset: InfoSubset::all(),
        projection,
    };
    assert(snapshot.wf());
    Ok(Arc::new(snapshot))
}

} // verus!
