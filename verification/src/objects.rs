use std::sync::Arc;
use vstd::prelude::*;
use vstd::string::to_string_from_display_ensures;

use crate::error::SudachiError;
use crate::input::InputText;
use crate::matcher::PosMatcher;
use crate::state::{
    build_lookup_snapshot, build_pos_matcher, different_dictionaries_message, pattern_debug, build_tokenized_snapshot, ensure_same_dictionary,
    matched_ids, node_view, pattern_hits, piece_view, projected, results_fit, share,
    split_allowed, split_fits, split_unit_ids, whole_surface_ids, Analysis, DictionaryState,
    LookupEntry, MorphemeListSnapshot, MorphemeNodeSnapshot, MorphemeNodeView,
};
use crate::types::{
    InfoSubset, SudachiPartOfSpeech, SudachiPartialPartOfSpeech, SudachiProjection,
    SudachiSplitMode, SudachiWordInfo, WordId, WordInfo,
};

verus! {

/// A list of morphemes: the result of a tokenization, a lookup or a split.
pub struct SudachiMorphemeList {
    snapshot: Arc<MorphemeListSnapshot>,
}

/// One morpheme of a morpheme list.
pub struct SudachiMorpheme {
    snapshot: Arc<MorphemeListSnapshot>,
    index: usize,
}

impl SudachiMorphemeList {
    #[verifier::type_invariant]
    spec fn valid(self) -> bool {
        self.snapshot.wf()
    }

    /// The list that the morphemes belong to.
    pub closed spec fn list(&self) -> MorphemeListSnapshot {
        *self.snapshot
    }

    /// The number of morphemes.
    pub fn count(&self) -> (r: u64)
        ensures
            r == self.list().nodes@.len(),
    {
        self.snapshot.nodes.len() as u64
    }

    /// Whether the list has no morpheme.
    pub fn is_empty(&self) -> (r: bool)
        ensures
            r == (self.list().nodes@.len() == 0),
    {
        self.snapshot.nodes.len() == 0
    }

    /// The total cost of the path through the list: the last morpheme's cost minus the first
    /// one's (wrapping on overflow), or 0 for an empty list.
    pub fn internal_cost(&self) -> (r: i32)
        ensures
            ({
                let nodes = self.list().nodes@;
                r == (if nodes.len() == 0 {
                    0i32
                } else {
                    nodes[nodes.len() - 1].total_cost.wrapping_sub(nodes[0].total_cost)
                })
            }),
    {
        let n = self.snapshot.nodes.len();
        if n == 0 {
            return 0;
        }
        let first = self.snapshot.nodes[0].total_cost;
        let last = self.snapshot.nodes[n - 1].total_cost;
        last.wrapping_sub(first)
    }

    /// The morpheme at `index`; it fails, with an invalid-argument error, exactly when the
    /// list has no morpheme there.
    pub fn morpheme_at(&self, index: u64) -> (r: Result<Arc<SudachiMorpheme>, SudachiError>)
        ensures
            r.is_ok() == (index < self.list().nodes@.len()),
            r matches Ok(m) ==> m.list() == self.list() && m.position() == index,
            r matches Err(e) ==> e matches SudachiError::InvalidArgument(m) && (if index
                > usize::MAX {
                m@ == "index overflow"@
            } else {
                exists|len_text: String, index_text: String|
                    to_string_from_display_ensures::<usize>(
                        &(self.list().nodes@.len() as usize),
                        len_text,
                    ) && to_string_from_display_ensures::<usize>(&(index as usize), index_text)
                        && m@ == "Morpheme index out of range: len is "@ + len_text@
                        + " but index was "@ + index_text@
            }),
    {
        proof {
            use_type_invariant(self);
        }
        if index > usize::MAX as u64 {
            assert(self.snapshot.nodes@.len() == self.snapshot.nodes.len());
            return Err(SudachiError::invalid_argument(String::from_str("index overflow")));
        }
        let index = index as usize;
        let len = self.snapshot.nodes.len();
        if index >= len {
            let mut message = String::from_str("Morpheme index out of range: len is ");
            let len_text = len.to_string();
            message.append(len_text.as_str());
            message.append(" but index was ");
            let index_text = index.to_string();
            message.append(index_text.as_str());
            assert(self.snapshot.nodes@.len() == len);
            return Err(SudachiError::invalid_argument(message));
        }
        Ok(Arc::new(SudachiMorpheme { snapshot: share(&self.snapshot), index }))
    }

    /// All morphemes of the list, in order.
    pub fn morphemes(&self) -> (r: Vec<Arc<SudachiMorpheme>>)
        ensures
            r@.len() == self.list().nodes@.len(),
            forall|i: int|
                0 <= i < r@.len() ==> (#[trigger] r@[i]).list() == self.list() && r@[i].position()
                    == i,
    {
        proof {
            use_type_invariant(self);
        }
        let mut r: Vec<Arc<SudachiMorpheme>> = Vec::new();
        let n = self.snapshot.nodes.len();
        for index in 0..n
            invariant
                n == self.list().nodes@.len(),
                self.snapshot.wf(),
                r@.len() == index,
                forall|i: int|
                    0 <= i < index ==> (#[trigger] r@[i]).list() == self.list() && r@[i].position()
                        == i,
        {
            r.push(Arc::new(SudachiMorpheme { snapshot: share(&self.snapshot), index }));
        }
        r
    }
}

impl SudachiMorpheme {
    #[verifier::type_invariant]
    spec fn valid(self) -> bool {
        &&& self.index < self.snapshot.nodes@.len()
        &&& self.snapshot.wf()
    }

    /// The list that the morpheme belongs to.
    pub closed spec fn list(&self) -> MorphemeListSnapshot {
        *self.snapshot
    }

    /// The morpheme's position in its list.
    pub closed spec fn position(&self) -> usize {
        self.index
    }

    /// The morpheme itself.
    pub open spec fn node(&self) -> MorphemeNodeView {
        self.list().nodes@[self.position() as int]@
    }

    fn node_ref(&self) -> (r: &MorphemeNodeSnapshot)
        ensures
            r@ == self.node(),
            self.position() < self.list().nodes@.len(),
            self.list().wf(),
            r.original_begin_char <= r.original_end_char,
    {
        proof {
            use_type_invariant(self);
        }
        &self.snapshot.nodes[self.index]
    }

    /// The character offset in the original text at which the morpheme begins.
    pub fn begin(&self) -> (r: u64)
        ensures
            r == self.node().original_begin_char,
    {
        self.node_ref().original_begin_char as u64
    }

    /// The character offset in the original text at which the morpheme ends.
    pub fn end(&self) -> (r: u64)
        ensures
            r == self.node().original_end_char,
    {
        self.node_ref().original_end_char as u64
    }

    /// The number of characters that the morpheme covers in the original text.
    pub fn length(&self) -> (r: u64)
        ensures
            r == self.node().original_end_char - self.node().original_begin_char,
    {
        let node = self.node_ref();
        (node.original_end_char - node.original_begin_char) as u64
    }

    /// The surface that the list's projection presents for the morpheme.
    pub fn surface(&self) -> (r: String)
        ensures
            r@ == projected(*self.list().dictionary, self.list().projection, self.node()),
    {
        let node = self.node_ref();
        self.snapshot.dictionary.project(self.snapshot.projection, node)
    }

    /// The morpheme's text as it stands in the original text.
    pub fn raw_surface(&self) -> (r: String)
        ensures
            r@ == self.node().raw_surface,
    {
        self.node_ref().raw_surface.clone()
    }

    /// The morpheme's part of speech.
    pub fn part_of_speech(&self) -> (r: SudachiPartOfSpeech)
        requires
            (self.node().word_info.pos_id as int) < self.list().dictionary.part_of_speech@.len(),
        ensures
            r == self.list().dictionary.part_of_speech@[self.node().word_info.pos_id as int],
    {
        let node = self.node_ref();
        self.snapshot.dictionary.part_of_speech[node.word_info.pos_id as usize].duplicate()
    }

    /// Whether the dictionary lists the morpheme's part of speech.
    pub fn has_listed_part_of_speech(&self) -> (r: bool)
        ensures
            r == ((self.node().word_info.pos_id as int)
                < self.list().dictionary.part_of_speech@.len()),
    {
        (self.node_ref().word_info.pos_id as usize) < self.snapshot.dictionary.part_of_speech.len()
    }

    /// The identifier of the morpheme's part of speech.
    pub fn part_of_speech_id(&self) -> (r: u16)
        ensures
            r == self.node().word_info.pos_id,
    {
        self.node_ref().word_info.pos_id
    }

    /// The morpheme's dictionary form.
    pub fn dictionary_form(&self) -> (r: String)
        ensures
            r@ == self.node().word_info.shown_dictionary_form(),
    {
        self.node_ref().word_info.dictionary_form()
    }

    /// The morpheme's normalized form.
    pub fn normalized_form(&self) -> (r: String)
        ensures
            r@ == self.node().word_info.shown_normalized_form(),
    {
        self.node_ref().word_info.normalized_form()
    }

    /// The morpheme's reading.
    pub fn reading_form(&self) -> (r: String)
        ensures
            r@ == self.node().word_info.shown_reading_form(),
    {
        self.node_ref().word_info.reading_form()
    }

    /// Whether the morpheme is out of the dictionaries' vocabulary.
    pub fn is_oov(&self) -> (r: bool)
        ensures
            r == self.node().word_id.oov,
    {
        self.node_ref().word_id.oov
    }

    /// The raw identifier of the morpheme's word.
    pub fn word_id(&self) -> (r: u32)
        ensures
            r == self.node().word_id.raw,
    {
        self.node_ref().word_id.raw
    }

    /// The index of the dictionary that holds the word, or -1 for an out-of-vocabulary word.
    pub fn dictionary_id(&self) -> (r: i32)
        ensures
            r == (if self.node().word_id.oov {
                -1i32
            } else {
                self.node().word_id.dic as i32
            }),
    {
        let node = self.node_ref();
        if node.word_id.oov {
            -1
        } else {
            node.word_id.dic as i32
        }
    }

    /// The synonym groups that the word belongs to.
    pub fn synonym_group_ids(&self) -> (r: Vec<u32>)
        ensures
            r@ == self.node().word_info.synonym_group_ids,
    {
        crate::types::copy_vec(&self.node_ref().word_info.synonym_group_ids)
    }

    /// The morpheme's word information as the bindings present it.
    pub fn word_info(&self) -> (r: SudachiWordInfo)
        ensures
            r.presents(self.node().word_info),
    {
        SudachiWordInfo::from_word_info(&self.node_ref().word_info)
    }

    /// The fields that were loaded for the morpheme's list.
    pub fn loaded_fields(&self) -> (r: InfoSubset)
        ensures
            r == self.list().subset,
    {
        self.snapshot.subset
    }

    /// The identifiers of the units into which the morpheme splits in `mode`, whose word
    /// information [`Self::split`] needs.  It fails, with an invalid-argument error, exactly
    /// when the field that the split needs was not loaded.
    pub fn split_plan(&self, mode: SudachiSplitMode) -> (r: Result<Vec<WordId>, SudachiError>)
        ensures
            r.is_ok() == split_allowed(self.list().subset, mode),
            r matches Ok(ids) ==> ids@ == split_unit_ids(self.node().word_info, mode),
            r matches Err(e) ==> e matches SudachiError::InvalidArgument(m) && m@
                == self.list().split_refusal(self.position(), mode),
    {
        proof {
            use_type_invariant(self);
        }
        self.snapshot.split_plan(self.index, mode)
    }

    /// The morpheme split into the units of `mode`, given the word information of each
    /// identifier of [`Self::split_plan`], in order.  Where the split yields no unit and
    /// `add_single` is not `Some(false)`, the list holds the morpheme itself.  It fails as
    /// the plan does, and with an internal error where `infos` does not fit the plan or the
    /// units cannot be placed.
    pub fn split(
        &self,
        mode: SudachiSplitMode,
        add_single: Option<bool>,
        infos: &Vec<WordInfo>,
    ) -> (r: Result<Arc<SudachiMorphemeList>, SudachiError>)
        ensures
            ({
                let node = self.node();
                let ids = split_unit_ids(node.word_info, mode);
                let single = ids.len() == 0 && add_single != Some(false);
                &&& r matches Err(e) ==> (e is InvalidArgument <==> !split_allowed(
                    self.list().subset,
                    mode,
                ))
                &&& r matches Err(e) ==> (e matches SudachiError::InvalidArgument(m) ==> m@
                    == self.list().split_refusal(self.position(), mode))
                &&& r matches Err(e) ==> (e is InvalidArgument || e is Internal)
                &&& r.is_ok() == (split_allowed(self.list().subset, mode) && (ids.len() == 0 || (
                infos@.len() == ids.len() && split_fits(node, *self.list().input, infos@))))
                &&& r matches Ok(l) ==> {
                    &&& l.list().dictionary == self.list().dictionary
                    &&& l.list().input == self.list().input
                    &&& l.list().subset == self.list().subset
                    &&& l.list().projection == self.list().projection
                    &&& single ==> l.list().nodes@.len() == 1 && l.list().nodes@[0]@ == node
                    &&& !single ==> l.list().nodes@.len() == ids.len()
                    &&& !single ==> forall|i: int|
                        0 <= i < ids.len() ==> (#[trigger] l.list().nodes@[i])@ == piece_view(
                            node,
                            *self.list().input,
                            infos@,
                            ids[i],
                            i,
                        )
                }
            }),
    {
        proof {
            use_type_invariant(self);
        }
        let add_single = match add_single {
            Some(b) => b,
            None => true,
        };
        let mut nodes = match self.snapshot.split_node(self.index, mode, infos) {
            Ok(nodes) => nodes,
            Err(e) => return Err(e),
        };
        if nodes.len() == 0 && add_single {
            nodes.push(self.snapshot.nodes[self.index].duplicate());
        }
        proof {
            let ids = split_unit_ids(self.node().word_info, mode);
            if ids.len() > 0 {
                assert forall|i: int| 0 <= i < nodes@.len() implies (#[trigger] nodes@[i]).original_begin_char
                    <= nodes@[i].original_end_char by {
                    assert(crate::state::piece_ok(self.node(), *self.snapshot.input, infos@, i));
                }
            }
        }
        let snapshot = self.snapshot.with_nodes(nodes);
        Ok(Arc::new(SudachiMorphemeList { snapshot: Arc::new(snapshot) }))
    }
}

/// A loaded dictionary.
pub struct SudachiDictionary {
    pub state: Arc<DictionaryState>,
}

/// A tokenizer: a dictionary with a split mode, the fields to load and a projection.
pub struct SudachiTokenizer {
    pub dictionary: Arc<DictionaryState>,
    pub mode: SudachiSplitMode,
    pub subset: InfoSubset,
    pub projection: SudachiProjection,
}

/// A part-of-speech matcher of a dictionary.
pub struct SudachiPosMatcher {
    pub dictionary: Arc<DictionaryState>,
    pub matcher: PosMatcher,
}

impl SudachiDictionary {
    /// The dictionary whose grammar lists `pos_list` as its parts of speech and whose
    /// configuration names `default_projection`.
    pub fn from_grammar(pos_list: Vec<Vec<String>>, default_projection: SudachiProjection) -> (r:
        Arc<SudachiDictionary>)
        requires
            forall|i: int| 0 <= i < pos_list@.len() ==> (#[trigger] pos_list@[i])@.len() > 0,
        ensures
            r.state.default_projection == default_projection,
            r.state.part_of_speech@.len() == pos_list@.len(),
            forall|i: int|
                0 <= i < pos_list@.len() ==> #[trigger] r.state.part_of_speech@[i].levels()
                    == crate::types::components_levels(pos_list@[i]@),
            r.state.conjugating_matcher@ == crate::state::precomputed_ids(pos_list@, true),
            r.state.normalized_nouns_matcher@ == crate::state::precomputed_ids(pos_list@, false),
            r.state.matchers_consistent(),
    {
        Arc::new(SudachiDictionary { state: Arc::new(DictionaryState::new(pos_list, default_projection)) })
    }

    /// The projection that a tokenizer uses: the one asked for, or the dictionary's default.
    pub fn resolve_projection(&self, projection: Option<SudachiProjection>) -> (r: SudachiProjection)
        ensures
            r == (match projection {
                Some(p) => p,
                None => self.state.default_projection,
            }),
    {
        match projection {
            Some(p) => p,
            None => self.state.default_projection,
        }
    }

    /// A tokenizer of this dictionary in `mode` (`C` where none is given), loading `subset`
    /// and presenting surfaces with `projection`.
    pub fn create_tokenizer(
        &self,
        mode: Option<SudachiSplitMode>,
        subset: InfoSubset,
        projection: SudachiProjection,
    ) -> (r: Arc<SudachiTokenizer>)
        ensures
            r.dictionary == self.state,
            r.mode == (match mode {
                Some(m) => m,
                None => SudachiSplitMode::C,
            }),
            r.subset == subset,
            r.projection == projection,
    {
        let mode = match mode {
            Some(m) => m,
            None => SudachiSplitMode::C,
        };
        Arc::new(SudachiTokenizer { dictionary: share(&self.state), mode, subset, projection })
    }

    /// The words of the dictionary whose surface is exactly `surface`, presented with the
    /// dictionary's default projection and every field loaded, given the analysed text of the
    /// surface, the lexicon's entries at its start, and the word information of those that
    /// cover the whole surface (see [`build_lookup_snapshot`]).
    pub fn lookup(
        &self,
        surface: &str,
        input: Result<InputText, String>,
        entries: &Vec<LookupEntry>,
        infos: Result<Vec<WordInfo>, String>,
    ) -> (r: Result<Arc<SudachiMorphemeList>, SudachiError>)
        ensures
            input matches Err(m) ==> r matches Err(e) && e == SudachiError::Tokenization(m),
            input matches Ok(text) ==> ({
                let len = surface.len();
                let ids = whole_surface_ids(entries@, len as int);
                let end_chars = text.char_table()[len as int];
                &&& !(len < text.char_table().len()) ==> (r matches Err(e) && e is Internal)
                &&& len < text.char_table().len() ==> match infos {
                    Err(m) => r matches Err(e) && e == SudachiError::Dictionary(m),
                    Ok(v) => {
                        &&& r.is_ok() == (v@.len() == ids.len() && (ids.len() == 0
                            || crate::state::node_fits(text, 0, end_chars as int)))
                        &&& r matches Ok(l) ==> {
                            &&& l.list().dictionary == self.state
                            &&& *l.list().input == text
                            &&& l.list().subset == InfoSubset::uniform(true)
                            &&& l.list().projection == self.state.default_projection
                            &&& l.list().nodes@.len() == ids.len()
                            &&& forall|i: int|
                                0 <= i < ids.len() ==> (#[trigger] l.list().nodes@[i])@
                                    == node_view(text, v@[i]@, ids[i], 0, 0, end_chars, 0, len as usize)
                        }
                        &&& r matches Err(e) ==> e is Internal
                    },
                }
            }),
    {
        match build_lookup_snapshot(
            share(&self.state),
            surface,
            input,
            entries,
            infos,
            self.state.default_projection,
        ) {
            Ok(snapshot) => Ok(Arc::new(SudachiMorphemeList { snapshot })),
            Err(e) => Err(e),
        }
    }

    /// The part of speech with identifier `pos_id`, if the dictionary lists one.
    pub fn part_of_speech(&self, pos_id: u16) -> (r: Option<SudachiPartOfSpeech>)
        ensures
            r == (if (pos_id as int) < self.state.part_of_speech@.len() {
                Some(self.state.part_of_speech@[pos_id as int])
            } else {
                None::<SudachiPartOfSpeech>
            }),
    {
        self.state.part_of_speech_for_id(pos_id)
    }

    /// The matcher of every part of speech that one of `patterns` admits; it fails, with an
    /// invalid-argument error, exactly when some pattern admits none.
    pub fn make_pos_matcher(&self, patterns: Vec<SudachiPartialPartOfSpeech>) -> (r: Result<
        Arc<SudachiPosMatcher>,
        SudachiError,
    >)
        ensures
            r.is_ok() == (forall|k: int|
                0 <= k < patterns@.len() ==> #[trigger] pattern_hits(
                    self.state.part_of_speech@,
                    patterns@[k],
                )),
            r matches Ok(m) ==> m.dictionary == self.state && m.matcher@ == matched_ids(
                self.state.part_of_speech@,
                patterns@,
            ),
            r matches Err(e) ==> e matches SudachiError::InvalidArgument(m) && exists|k: int|
                0 <= k < patterns@.len() && !pattern_hits(self.state.part_of_speech@, patterns@[k])
                    && (forall|j: int|
                    0 <= j < k ==> #[trigger] pattern_hits(
                        self.state.part_of_speech@,
                        patterns@[j],
                    )) && m@ == "POS pattern "@ + pattern_debug(patterns@[k])
                    + " did not match any elements"@,
    {
        match build_pos_matcher(&self.state, patterns.as_slice()) {
            Ok(matcher) => Ok(Arc::new(SudachiPosMatcher { dictionary: share(&self.state), matcher })),
            Err(e) => Err(e),
        }
    }
}

impl SudachiTokenizer {
    /// The tokenizer's split mode.
    pub fn mode(&self) -> (r: SudachiSplitMode)
        ensures
            r == self.mode,
    {
        self.mode
    }

    /// The morpheme list of an analysis by this tokenizer: the analysed text, the nodes that
    /// the analyser found in it and the fields it loaded, or the analyser's failure message
    /// (see [`build_tokenized_snapshot`]).
    pub fn tokenize(&self, analysis: Result<Analysis, String>) -> (r: Result<
        Arc<SudachiMorphemeList>,
        SudachiError,
    >)
        ensures
            analysis matches Err(m) ==> r matches Err(e) && e == SudachiError::Tokenization(m),
            analysis matches Ok(a) ==> {
                &&& r.is_ok() == results_fit(a.input, a.nodes@)
                &&& r matches Ok(l) ==> {
                    &&& l.list().dictionary == self.dictionary
                    &&& *l.list().input == a.input
                    &&& l.list().subset == a.subset
                    &&& l.list().projection == self.projection
                    &&& l.list().nodes@.len() == a.nodes@.len()
                    &&& forall|i: int|
                        0 <= i < a.nodes@.len() ==> (#[trigger] l.list().nodes@[i])@ == node_view(
                            a.input,
                            a.nodes@[i].word_info@,
                            a.nodes@[i].word_id,
                            a.nodes@[i].total_cost,
                            a.nodes@[i].begin,
                            a.nodes@[i].end,
                            a.nodes@[i].begin_bytes,
                            a.nodes@[i].end_bytes,
                        )
                }
                &&& r matches Err(e) ==> e is Internal
            },
    {
        match build_tokenized_snapshot(share(&self.dictionary), analysis, self.projection) {
            Ok(snapshot) => Ok(Arc::new(SudachiMorphemeList { snapshot })),
            Err(e) => Err(e),
        }
    }
}

/// The identifiers (truncated to 16 bits) of the indices below `n`.
pub open spec fn index_ids(n: int) -> Set<u16> {
    Set::new(|id: u16| exists|idx: int| 0 <= idx < n && #[trigger] (idx as u16) == id)
}

/// The parts of speech among the first `n` of `pos` whose identifiers `ids` holds, in order.
pub open spec fn listed_entries(pos: Seq<SudachiPartOfSpeech>, ids: Set<u16>, n: int) -> Seq<
    SudachiPartOfSpeech,
>
    decreases n,
{
    if n <= 0 {
        Seq::empty()
    } else if ids.contains((n - 1) as u16) {
        listed_entries(pos, ids, n - 1).push(pos[n - 1])
    } else {
        listed_entries(pos, ids, n - 1)
    }
}

impl SudachiPosMatcher {
    /// Whether the morpheme's part of speech is matched; it fails, with an invalid-argument
    /// error, where the morpheme comes from another dictionary.
    pub fn matches(&self, morpheme: &SudachiMorpheme) -> (r: Result<bool, SudachiError>)
        ensures
            r matches Ok(b) ==> *self.dictionary == *morpheme.list().dictionary && b
                == self.matcher@.contains(morpheme.node().word_info.pos_id),
            r matches Err(e) ==> e matches SudachiError::InvalidArgument(m) && m@
                == different_dictionaries_message(),
    {
        match ensure_same_dictionary(&self.dictionary, &morpheme.snapshot.dictionary) {
            Ok(()) => {},
            Err(e) => return Err(e),
        }
        Ok(self.matcher.matches_id(morpheme.part_of_speech_id()))
    }

    /// The number of parts of speech matched.
    pub fn count(&self) -> (r: u64)
        ensures
            self.matcher@.finite(),
            r == self.matcher@.len(),
    {
        self.matcher.num_entries() as u64
    }

    /// The matched parts of speech of the dictionary, in the dictionary's order.
    pub fn entries(&self) -> (r: Vec<SudachiPartOfSpeech>)
        ensures
            r@ == listed_entries(
                self.dictionary.part_of_speech@,
                self.matcher@,
                self.dictionary.part_of_speech@.len() as int,
            ),
    {
        let mut r: Vec<SudachiPartOfSpeech> = Vec::new();
        let n = self.dictionary.part_of_speech.len();
        for idx in 0..n
            invariant
                n == self.dictionary.part_of_speech@.len(),
                r@ == listed_entries(self.dictionary.part_of_speech@, self.matcher@, idx as int),
        {
            if self.matcher.matches_id(idx as u16) {
                r.push(self.dictionary.part_of_speech[idx].duplicate());
            }
        }
        r
    }

    /// The matcher of the parts of speech that `self` or `other` matches; it fails, with an
    /// invalid-argument error, where the two come from different dictionaries.
    pub fn union(&self, other: &SudachiPosMatcher) -> (r: Result<Arc<SudachiPosMatcher>, SudachiError>)
        ensures
            r matches Ok(m) ==> *self.dictionary == *other.dictionary && m.dictionary
                == self.dictionary && m.matcher@ == self.matcher@.union(other.matcher@),
            r matches Err(e) ==> e matches SudachiError::InvalidArgument(m) && m@
                == different_dictionaries_message(),
    {
        match ensure_same_dictionary(&self.dictionary, &other.dictionary) {
            Ok(()) => {},
            Err(e) => return Err(e),
        }
        Ok(
            Arc::new(
                SudachiPosMatcher {
                    dictionary: share(&self.dictionary),
                    matcher: self.matcher.union(&other.matcher),
                },
            ),
        )
    }

    /// The matcher of the parts of speech that both `self` and `other` match; it fails, with
    /// an invalid-argument error, where the two come from different dictionaries.
    pub fn intersection(&self, other: &SudachiPosMatcher) -> (r: Result<
        Arc<SudachiPosMatcher>,
        SudachiError,
    >)
        ensures
            r matches Ok(m) ==> *self.dictionary == *other.dictionary && m.dictionary
                == self.dictionary && m.matcher@ == self.matcher@.intersect(other.matcher@),
            r matches Err(e) ==> e matches SudachiError::InvalidArgument(m) && m@
                == different_dictionaries_message(),
    {
        match ensure_same_dictionary(&self.dictionary, &other.dictionary) {
            Ok(()) => {},
            Err(e) => return Err(e),
        }
        Ok(
            Arc::new(
                SudachiPosMatcher {
                    dictionary: share(&self.dictionary),
                    matcher: self.matcher.intersection(&other.matcher),
                },
            ),
        )
    }

    /// The matcher of the parts of speech that `self` matches and `other` does not; it fails,
    /// with an invalid-argument error, where the two come from different dictionaries.
    pub fn subtract(&self, other: &SudachiPosMatcher) -> (r: Result<
        Arc<SudachiPosMatcher>,
        SudachiError,
    >)
        ensures
            r matches Ok(m) ==> *self.dictionary == *other.dictionary && m.dictionary
                == self.dictionary && m.matcher@ == self.matcher@.difference(other.matcher@),
            r matches Err(e) ==> e matches SudachiError::InvalidArgument(m) && m@
                == different_dictionaries_message(),
    {
        match ensure_same_dictionary(&self.dictionary, &other.dictionary) {
            Ok(()) => {},
            Err(e) => return Err(e),
        }
        Ok(
            Arc::new(
                SudachiPosMatcher {
                    dictionary: share(&self.dictionary),
                    matcher: self.matcher.difference(&other.matcher),
                },
            ),
        )
    }

    /// The matcher of the dictionary's parts of speech that `self` does not match.
    pub fn inverted(&self) -> (r: Arc<SudachiPosMatcher>)
        ensures
            r.dictionary == self.dictionary,
            r.matcher@ == index_ids(self.dictionary.part_of_speech@.len() as int).difference(
                self.matcher@,
            ),
    {
        let mut values: Vec<u16> = Vec::new();
        let n = self.dictionary.part_of_speech.len();
        for idx in 0..n
            invariant
                n == self.dictionary.part_of_speech@.len(),
                forall|id: u16|
                    values@.contains(id) <==> (index_ids(idx as int).contains(id)
                        && !self.matcher@.contains(id)),
        {
            let ghost before = values@;
            let id = idx as u16;
            if !self.matcher.matches_id(id) {
                values.push(id);
            }
            assert forall|v: u16|
                values@.contains(v) <==> (index_ids(idx + 1).contains(v)
                    && !self.matcher@.contains(v)) by {
                if values@.contains(v) {
                    let j = choose|j: int| 0 <= j < values@.len() && #[trigger] values@[j] == v;
                    if j < before.len() {
                        assert(before[j] == v);
                        assert(before.contains(v));
                        let k = choose|k: int| 0 <= k < idx && #[trigger] (k as u16) == v;
                        assert(0 <= k < idx + 1 && (k as u16) == v);
                    } else {
                        assert(0 <= idx < idx + 1 && ((idx as int) as u16) == v);
                    }
                }
                if index_ids(idx + 1).contains(v) && !self.matcher@.contains(v) {
                    let k = choose|k: int| 0 <= k < idx + 1 && #[trigger] (k as u16) == v;
                    if k < idx {
                        assert(index_ids(idx as int).contains(v));
                        assert(before.contains(v));
                        let j = choose|j: int| 0 <= j < before.len() && #[trigger] before[j] == v;
                        assert(values@[j] == v);
                    } else {
                        assert(values@[values@.len() - 1] == v);
                    }
                }
            }
        }
        let matcher = PosMatcher::new(values);
        assert(matcher@ =~= index_ids(n as int).difference(self.matcher@));
        Arc::new(SudachiPosMatcher { dictionary: share(&self.dictionary), matcher })
    }
}

} // verus!
