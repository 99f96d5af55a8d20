use vstd::prelude::*;

verus! {

/// How finely a text is split into morphemes: `A` is the shortest unit, `C` the longest.
#[derive(Clone, Copy, Debug, PartialEq, Eq, Structural)]
pub enum SudachiSplitMode {
    A,
    B,
    C,
}

/// Which string a morpheme presents as its surface.
#[derive(Clone, Copy, Debug, PartialEq, Eq, Structural)]
pub enum SudachiProjection {
    Surface,
    Normalized,
    Reading,
    Dictionary,
    DictionaryAndSurface,
    NormalizedAndSurface,
    NormalizedNouns,
}

/// A field of the word information that a tokenizer can be asked to load.
#[derive(Clone, Copy, Debug, PartialEq, Eq, Structural)]
pub enum SudachiInfoField {
    Surface,
    PartOfSpeech,
    NormalizedForm,
    DictionaryForm,
    ReadingForm,
    WordStructure,
    SplitA,
    SplitB,
    SynonymGroupId,
}

/// The set of word-information fields that are loaded for a morpheme.
#[derive(Clone, Copy, Debug, PartialEq, Eq, Structural)]
pub struct InfoSubset {
    pub surface: bool,
    pub head_word_length: bool,
    pub pos_id: bool,
    pub normalized_form: bool,
    pub dic_form_word_id: bool,
    pub reading_form: bool,
    pub split_a: bool,
    pub split_b: bool,
    pub word_structure: bool,
    pub synonym_group_id: bool,
}

impl InfoSubset {
    /// The subset that every flag of which is `flag`.
    pub open spec fn uniform(flag: bool) -> InfoSubset {
        InfoSubset {
            surface: flag,
            head_word_length: flag,
            pos_id: flag,
            normalized_form: flag,
            dic_form_word_id: flag,
            reading_form: flag,
            split_a: flag,
            split_b: flag,
            word_structure: flag,
            synonym_group_id: flag,
        }
    }

    /// The flag-wise union of two subsets.
    pub open spec fn spec_union(self, other: InfoSubset) -> InfoSubset {
        InfoSubset {
            surface: self.surface || other.surface,
            head_word_length: self.head_word_length || other.head_word_length,
            pos_id: self.pos_id || other.pos_id,
            normalized_form: self.normalized_form || other.normalized_form,
            dic_form_word_id: self.dic_form_word_id || other.dic_form_word_id,
            reading_form: self.reading_form || other.reading_form,
            split_a: self.split_a || other.split_a,
            split_b: self.split_b || other.split_b,
            word_structure: self.word_structure || other.word_structure,
            synonym_group_id: self.synonym_group_id || other.synonym_group_id,
        }
    }

    /// Every flag set in `other` is set in `self`.
    pub open spec fn spec_contains(self, other: InfoSubset) -> bool {
        &&& other.surface ==> self.surface
        &&& other.head_word_length ==> self.head_word_length
        &&& other.pos_id ==> self.pos_id
        &&& other.normalized_form ==> self.normalized_form
        &&& other.dic_form_word_id ==> self.dic_form_word_id
        &&& other.reading_form ==> self.reading_form
        &&& other.split_a ==> self.split_a
        &&& other.split_b ==> self.split_b
        &&& other.word_structure ==> self.word_structure
        &&& other.synonym_group_id ==> self.synonym_group_id
    }

    /// The subset that a single field selects.
    pub open spec fn spec_from_field(field: SudachiInfoField) -> InfoSubset {
        let none = InfoSubset::uniform(false);
        match field {
            SudachiInfoField::Surface => InfoSubset { surface: true, ..none },
            SudachiInfoField::PartOfSpeech => InfoSubset { pos_id: true, ..none },
            SudachiInfoField::NormalizedForm => InfoSubset { normalized_form: true, ..none },
            SudachiInfoField::DictionaryForm => InfoSubset { dic_form_word_id: true, ..none },
            SudachiInfoField::ReadingForm => InfoSubset { reading_form: true, ..none },
            SudachiInfoField::WordStructure => InfoSubset { word_structure: true, ..none },
            SudachiInfoField::SplitA => InfoSubset { split_a: true, ..none },
            SudachiInfoField::SplitB => InfoSubset { split_b: true, ..none },
            SudachiInfoField::SynonymGroupId => InfoSubset { synonym_group_id: true, ..none },
        }
    }

    /// The subset that a list of fields selects: each flag is set exactly when a field that
    /// selects it is listed.
    pub open spec fn spec_from_fields(fields: Seq<SudachiInfoField>) -> InfoSubset {
        InfoSubset {
            surface: fields.contains(SudachiInfoField::Surface),
            head_word_length: false,
            pos_id: fields.contains(SudachiInfoField::PartOfSpeech),
            normalized_form: fields.contains(SudachiInfoField::NormalizedForm),
            dic_form_word_id: fields.contains(SudachiInfoField::DictionaryForm),
            reading_form: fields.contains(SudachiInfoField::ReadingForm),
            split_a: fields.contains(SudachiInfoField::SplitA),
            split_b: fields.contains(SudachiInfoField::SplitB),
            word_structure: fields.contains(SudachiInfoField::WordStructure),
            synonym_group_id: fields.contains(SudachiInfoField::SynonymGroupId),
        }
    }

    /// The flags that every tokenizer loads, whatever fields were asked for.
    pub open spec fn spec_always_loaded() -> InfoSubset {
        InfoSubset { surface: true, head_word_length: true, pos_id: true, ..InfoSubset::uniform(false) }
    }

    /// The subset with no flag set.
    pub fn empty() -> (r: InfoSubset)
        ensures
            r == InfoSubset::uniform(false),
    {
        InfoSubset {
            surface: false,
            head_word_length: false,
            pos_id: false,
            normalized_form: false,
            dic_form_word_id: false,
            reading_form: false,
            split_a: false,
            split_b: false,
            word_structure: false,
            synonym_group_id: false,
        }
    }

    /// The subset with every flag set.
    pub fn all() -> (r: InfoSubset)
        ensures
            r == InfoSubset::uniform(true),
    {
        InfoSubset {
            surface: true,
            head_word_length: true,
            pos_id: true,
            normalized_form: true,
            dic_form_word_id: true,
            reading_form: true,
            split_a: true,
            split_b: true,
            word_structure: true,
            synonym_group_id: true,
        }
    }

    /// The flag-wise union of `self` and `other`.
    pub fn union(&self, other: &InfoSubset) -> (r: InfoSubset)
        ensures
            r == self.spec_union(*other),
    {
        InfoSubset {
            surface: self.surface || other.surface,
            head_word_length: self.head_word_length || other.head_word_length,
            pos_id: self.pos_id || other.pos_id,
            normalized_form: self.normalized_form || other.normalized_form,
            dic_form_word_id: self.dic_form_word_id || other.dic_form_word_id,
            reading_form: self.reading_form || other.reading_form,
            split_a: self.split_a || other.split_a,
            split_b: self.split_b || other.split_b,
            word_structure: self.word_structure || other.word_structure,
            synonym_group_id: self.synonym_group_id || other.synonym_group_id,
        }
    }

    /// Whether every flag set in `other` is set in `self`.
    pub fn contains(&self, other: &InfoSubset) -> (r: bool)
        ensures
            r == self.spec_contains(*other),
    {
        (!other.surface || self.surface) && (!other.head_word_length || self.head_word_length)
            && (!other.pos_id || self.pos_id) && (!other.normalized_form || self.normalized_form)
            && (!other.dic_form_word_id || self.dic_form_word_id) && (!other.reading_form
            || self.reading_form) && (!other.split_a || self.split_a) && (!other.split_b
            || self.split_b) && (!other.word_structure || self.word_structure) && (
        !other.synonym_group_id || self.synonym_group_id)
    }

    /// The subset that a single field selects.
    pub fn from_field(field: SudachiInfoField) -> (r: InfoSubset)
        ensures
            r == InfoSubset::spec_from_field(field),
    {
        let mut r = InfoSubset::empty();
        match field {
            SudachiInfoField::Surface => r.surface = true,
            SudachiInfoField::PartOfSpeech => r.pos_id = true,
            SudachiInfoField::NormalizedForm => r.normalized_form = true,
            SudachiInfoField::DictionaryForm => r.dic_form_word_id = true,
            SudachiInfoField::ReadingForm => r.reading_form = true,
            SudachiInfoField::WordStructure => r.word_structure = true,
            SudachiInfoField::SplitA => r.split_a = true,
            SudachiInfoField::SplitB => r.split_b = true,
            SudachiInfoField::SynonymGroupId => r.synonym_group_id = true,
        }
        r
    }
}

/// The subset that a tokenizer loads: the listed fields (every field where none are listed),
/// the fields that the projection needs, and surface, head-word length and part of speech.
/// The dictionary's own normalisation of the subset is applied afterwards by its caller.
pub open spec fn spec_subset_from_fields(
    fields: Option<Seq<SudachiInfoField>>,
    projection_subset: InfoSubset,
) -> InfoSubset {
    let base = match fields {
        Some(fs) => InfoSubset::spec_from_fields(fs),
        None => InfoSubset::uniform(true),
    };
    base.spec_union(projection_subset).spec_union(InfoSubset::spec_always_loaded())
}

/// The fields selected by `fields` (or all fields when `None`), together with
/// `projection_subset` and the always-loaded flags.
pub fn subset_from_fields(
    fields: Option<Vec<SudachiInfoField>>,
    projection_subset: InfoSubset,
) -> (r: InfoSubset)
    ensures
        r == spec_subset_from_fields(
            match fields { Some(v) => Some(v@), None => None },
            projection_subset,
        ),
{
    let base = match fields {
        Some(fields) => {
            let mut acc = InfoSubset::empty();
            let n = fields.len();
            for i in 0..n
                invariant
                    n == fields.len(),
                    acc == InfoSubset::spec_from_fields(fields@.take(i as int)),
            {
                let ghost before = fields@.take(i as int);
                assert(fields@.take(i + 1) =~= before.push(fields@[i as int]));
                assert forall|f: SudachiInfoField| #[trigger]
                    fields@.take(i + 1).contains(f) == (before.contains(f) || fields@[i as int]
                        == f) by {
                    let t = fields@.take(i + 1);
                    if t.contains(f) {
                        let k = choose|k: int| 0 <= k < t.len() && #[trigger] t[k] == f;
                        if k < i {
                            assert(before[k] == f);
                        }
                    }
                    if before.contains(f) {
                        let k = choose|k: int| 0 <= k < before.len() && #[trigger] before[k] == f;
                        assert(t[k] == f);
                    }
                    if fields@[i as int] == f {
                        assert(t[i as int] == f);
                    }
                }
                let one = InfoSubset::from_field(fields[i]);
                acc = acc.union(&one);
            }
            assert(fields@.take(n as int) =~= fields@);
            acc
        },
        None => InfoSubset::all(),
    };
    let mut always = InfoSubset::empty();
    always.surface = true;
    always.head_word_length = true;
    always.pos_id = true;
    base.union(&projection_subset).union(&always)
}


/// The six levels of a part of speech as listed by the dictionary.
#[derive(Clone, Debug, PartialEq, Eq)]
pub struct SudachiPartOfSpeech {
    pub level1: String,
    pub level2: String,
    pub level3: String,
    pub level4: String,
    pub conjugation_type: String,
    pub conjugation_form: String,
}

impl SudachiPartOfSpeech {
    /// The six levels, in order, as character sequences.
    pub open spec fn levels(self) -> Seq<Seq<char>> {
        seq![
            self.level1@,
            self.level2@,
            self.level3@,
            self.level4@,
            self.conjugation_type@,
            self.conjugation_form@,
        ]
    }
}

/// The `i`-th component of a part-of-speech list, or the empty string where the list is shorter.
pub open spec fn component(pos: Seq<String>, i: int) -> Seq<char> {
    if 0 <= i < pos.len() {
        pos[i]@
    } else {
        Seq::empty()
    }
}

/// The components `0..6` of a part-of-speech list, each defaulting to the empty string.
pub open spec fn components_levels(pos: Seq<String>) -> Seq<Seq<char>> {
    Seq::new(6, |i: int| component(pos, i))
}

fn component_at(pos: &[String], i: usize) -> (r: String)
    ensures
        r@ == component(pos@, i as int),
{
    if i < pos.len() {
        pos[i].clone()
    } else {
        String::new()
    }
}

/// A part of speech built from the dictionary's component list: the first six components,
/// each missing one being the empty string.
pub fn part_of_speech_from_components(pos: &[String]) -> (r: SudachiPartOfSpeech)
    ensures
        r.levels() == components_levels(pos@),
{
    let r = SudachiPartOfSpeech {
        level1: component_at(pos, 0),
        level2: component_at(pos, 1),
        level3: component_at(pos, 2),
        level4: component_at(pos, 3),
        conjugation_type: component_at(pos, 4),
        conjugation_form: component_at(pos, 5),
    };
    assert(r.levels() =~= components_levels(pos@));
    r
}

/// A part-of-speech pattern: each level is either left open (`None`) or must equal the given
/// string.
#[derive(Clone, Debug, PartialEq, Eq, Default)]
pub struct SudachiPartialPartOfSpeech {
    pub level1: Option<String>,
    pub level2: Option<String>,
    pub level3: Option<String>,
    pub level4: Option<String>,
    pub conjugation_type: Option<String>,
    pub conjugation_form: Option<String>,
}

/// A single level of a pattern admits a value when it is open or equal to it.
pub open spec fn spec_matches_partial(pattern: Option<String>, value: Seq<char>) -> bool {
    match pattern {
        None => true,
        Some(p) => p@ == value,
    }
}

impl SudachiPartialPartOfSpeech {
    /// The six levels of the pattern, in order.
    pub open spec fn pattern_levels(self) -> Seq<Option<String>> {
        seq![
            self.level1,
            self.level2,
            self.level3,
            self.level4,
            self.conjugation_type,
            self.conjugation_form,
        ]
    }

    /// The pattern admits the part of speech: each of its six levels admits the
    /// corresponding level.
    pub open spec fn spec_matches(self, pos: SudachiPartOfSpeech) -> bool {
        forall|i: int|
            0 <= i < 6 ==> #[trigger] spec_matches_partial(
                self.pattern_levels()[i],
                pos.levels()[i],
            )
    }

    /// Whether the pattern admits `pos`.
    pub fn matches(&self, pos: &SudachiPartOfSpeech) -> (r: bool)
        ensures
            r == self.spec_matches(*pos),
    {
        let r = matches_partial(&self.level1, &pos.level1) && matches_partial(
            &self.level2,
            &pos.level2,
        ) && matches_partial(&self.level3, &pos.level3) && matches_partial(
            &self.level4,
            &pos.level4,
        ) && matches_partial(&self.conjugation_type, &pos.conjugation_type) && matches_partial(
            &self.conjugation_form,
            &pos.conjugation_form,
        );
        proof {
            let pl = self.pattern_levels();
            let ll = pos.levels();
            assert(pl[0] == self.level1 && ll[0] == pos.level1@);
            assert(pl[1] == self.level2 && ll[1] == pos.level2@);
            assert(pl[2] == self.level3 && ll[2] == pos.level3@);
            assert(pl[3] == self.level4 && ll[3] == pos.level4@);
            assert(pl[4] == self.conjugation_type && ll[4] == pos.conjugation_type@);
            assert(pl[5] == self.conjugation_form && ll[5] == pos.conjugation_form@);
            if r {
                assert forall|i: int| 0 <= i < 6 implies #[trigger] spec_matches_partial(
                    pl[i],
                    ll[i],
                ) by {
                    if i == 0 {
                    } else if i == 1 {
                    } else if i == 2 {
                    } else if i == 3 {
                    } else if i == 4 {
                    } else {
                    }
                }
            } else {
                if !spec_matches_partial(pl[0], ll[0]) {
                } else if !spec_matches_partial(pl[1], ll[1]) {
                } else if !spec_matches_partial(pl[2], ll[2]) {
                } else if !spec_matches_partial(pl[3], ll[3]) {
                } else if !spec_matches_partial(pl[4], ll[4]) {
                } else {
                    assert(!spec_matches_partial(pl[5], ll[5]));
                }
            }
        }
        r
    }
}

/// Whether a single pattern level admits `value`.
pub fn matches_partial(pattern: &Option<String>, value: &String) -> (r: bool)
    ensures
        r == spec_matches_partial(*pattern, value@),
{
    match pattern {
        None => true,
        Some(p) => *p == *value,
    }
}

/// The identifier of a word in the dictionaries, with the two facts that the bindings read
/// from it: the index of the dictionary that holds it and whether it stands for an
/// out-of-vocabulary word.
#[derive(Clone, Copy, Debug, PartialEq, Eq, Structural)]
pub struct WordId {
    pub raw: u32,
    pub dic: u8,
    pub oov: bool,
}

/// The word information that the dictionary holds for a word.
#[derive(Clone, Debug)]
pub struct WordInfo {
    pub surface: String,
    pub head_word_length: u16,
    pub pos_id: u16,
    pub normalized_form: String,
    pub dictionary_form_word_id: i32,
    pub dictionary_form: String,
    pub reading_form: String,
    pub a_unit_split: Vec<WordId>,
    pub b_unit_split: Vec<WordId>,
    pub word_structure: Vec<WordId>,
    pub synonym_group_ids: Vec<u32>,
}

/// The mathematical content of a [`WordInfo`].
pub struct WordInfoView {
    pub surface: Seq<char>,
    pub head_word_length: u16,
    pub pos_id: u16,
    pub normalized_form: Seq<char>,
    pub dictionary_form_word_id: i32,
    pub dictionary_form: Seq<char>,
    pub reading_form: Seq<char>,
    pub a_unit_split: Seq<WordId>,
    pub b_unit_split: Seq<WordId>,
    pub word_structure: Seq<WordId>,
    pub synonym_group_ids: Seq<u32>,
}

impl View for WordInfo {
    type V = WordInfoView;

    open spec fn view(&self) -> WordInfoView {
        WordInfoView {
            surface: self.surface@,
            head_word_length: self.head_word_length,
            pos_id: self.pos_id,
            normalized_form: self.normalized_form@,
            dictionary_form_word_id: self.dictionary_form_word_id,
            dictionary_form: self.dictionary_form@,
            reading_form: self.reading_form@,
            a_unit_split: self.a_unit_split@,
            b_unit_split: self.b_unit_split@,
            word_structure: self.word_structure@,
            synonym_group_ids: self.synonym_group_ids@,
        }
    }
}

/// A copy of a vector of copyable items.
pub fn copy_vec<T: Copy>(v: &Vec<T>) -> (r: Vec<T>)
    ensures
        r@ == v@,
{
    let mut r: Vec<T> = Vec::new();
    let n = v.len();
    for i in 0..n
        invariant
            n == v.len(),
            r@ == v@.take(i as int),
    {
        r.push(v[i]);
        assert(r@ =~= v@.take(i + 1));
    }
    assert(v@.take(n as int) =~= v@);
    r
}

impl WordInfoView {
    /// The normalized form as the word shows it: an empty stored form stands for the surface.
    pub open spec fn shown_normalized_form(self) -> Seq<char> {
        spec_copy_if_empty(self.normalized_form, self.surface)
    }

    /// The dictionary form as the word shows it: an empty stored form stands for the surface.
    pub open spec fn shown_dictionary_form(self) -> Seq<char> {
        spec_copy_if_empty(self.dictionary_form, self.surface)
    }

    /// The reading as the word shows it: an empty stored form stands for the surface.
    pub open spec fn shown_reading_form(self) -> Seq<char> {
        spec_copy_if_empty(self.reading_form, self.surface)
    }
}

impl WordInfo {
    /// The normalized form, with the surface in place of an empty stored form.
    pub fn normalized_form(&self) -> (r: String)
        ensures
            r@ == self@.shown_normalized_form(),
    {
        copy_if_empty(self.normalized_form.clone(), self.surface.as_str())
    }

    /// The dictionary form, with the surface in place of an empty stored form.
    pub fn dictionary_form(&self) -> (r: String)
        ensures
            r@ == self@.shown_dictionary_form(),
    {
        copy_if_empty(self.dictionary_form.clone(), self.surface.as_str())
    }

    /// The reading, with the surface in place of an empty stored form.
    pub fn reading_form(&self) -> (r: String)
        ensures
            r@ == self@.shown_reading_form(),
    {
        copy_if_empty(self.reading_form.clone(), self.surface.as_str())
    }

    /// A copy of the word information.
    pub fn duplicate(&self) -> (r: WordInfo)
        ensures
            r@ == self@,
    {
        let r = WordInfo {
            surface: self.surface.clone(),
            head_word_length: self.head_word_length,
            pos_id: self.pos_id,
            normalized_form: self.normalized_form.clone(),
            dictionary_form_word_id: self.dictionary_form_word_id,
            dictionary_form: self.dictionary_form.clone(),
            reading_form: self.reading_form.clone(),
            a_unit_split: copy_vec(&self.a_unit_split),
            b_unit_split: copy_vec(&self.b_unit_split),
            word_structure: copy_vec(&self.word_structure),
            synonym_group_ids: copy_vec(&self.synonym_group_ids),
        };
        r
    }
}

/// The word information of a morpheme as the bindings present it.
#[derive(Clone, Debug, PartialEq, Eq)]
pub struct SudachiWordInfo {
    pub surface: String,
    pub head_word_length: u16,
    pub pos_id: u16,
    pub normalized_form: String,
    pub dictionary_form_word_id: i32,
    pub dictionary_form: String,
    pub reading_form: String,
    pub a_unit_split: Vec<u32>,
    pub b_unit_split: Vec<u32>,
    pub word_structure: Vec<u32>,
    pub synonym_group_ids: Vec<u32>,
}

/// `value`, or `fallback` where `value` is empty.
pub open spec fn spec_copy_if_empty(value: Seq<char>, fallback: Seq<char>) -> Seq<char> {
    if value.len() == 0 {
        fallback
    } else {
        value
    }
}

/// The raw identifiers of a list of word identifiers.
pub open spec fn spec_raw_word_ids(ids: Seq<WordId>) -> Seq<u32> {
    ids.map_values(|id: WordId| id.raw)
}

/// `value`, or a copy of `fallback` where `value` is empty.
pub fn copy_if_empty(value: String, fallback: &str) -> (r: String)
    ensures
        r@ == spec_copy_if_empty(value@, fallback@),
{
    if value.as_str().is_empty() {
        fallback.to_owned()
    } else {
        value
    }
}

/// The raw identifiers of `ids`, in order.
pub fn raw_word_ids(ids: &[WordId]) -> (r: Vec<u32>)
    ensures
        r@ == spec_raw_word_ids(ids@),
{
    let mut r: Vec<u32> = Vec::new();
    let n = ids.len();
    for i in 0..n
        invariant
            n == ids@.len(),
            r@ == spec_raw_word_ids(ids@.take(i as int)),
    {
        r.push(ids[i].raw);
        assert(spec_raw_word_ids(ids@.take(i + 1)) =~= spec_raw_word_ids(ids@.take(i as int)).push(
            ids@[i as int].raw,
        ));
    }
    assert(ids@.take(n as int) =~= ids@);
    r
}

impl SudachiWordInfo {
    /// `self` presents `info`: its fields as they are, except that an empty normalized,
    /// dictionary or reading form is replaced by the surface, and that word identifiers are
    /// given by their raw value.
    pub open spec fn presents(self, info: WordInfoView) -> bool {
        &&& self.surface@ == info.surface
        &&& self.head_word_length == info.head_word_length
        &&& self.pos_id == info.pos_id
        &&& self.normalized_form@ == info.shown_normalized_form()
        &&& self.dictionary_form_word_id == info.dictionary_form_word_id
        &&& self.dictionary_form@ == info.shown_dictionary_form()
        &&& self.reading_form@ == info.shown_reading_form()
        &&& self.a_unit_split@ == spec_raw_word_ids(info.a_unit_split)
        &&& self.b_unit_split@ == spec_raw_word_ids(info.b_unit_split)
        &&& self.word_structure@ == spec_raw_word_ids(info.word_structure)
        &&& self.synonym_group_ids@ == info.synonym_group_ids
    }

    /// The presentation of `info`.
    pub fn from_word_info(info: &WordInfo) -> (r: SudachiWordInfo)
        ensures
            r.presents(info@),
    {
        SudachiWordInfo {
            surface: info.surface.clone(),
            head_word_length: info.head_word_length,
            pos_id: info.pos_id,
            normalized_form: info.normalized_form(),
            dictionary_form_word_id: info.dictionary_form_word_id,
            dictionary_form: info.dictionary_form(),
            reading_form: info.reading_form(),
            a_unit_split: raw_word_ids(info.a_unit_split.as_slice()),
            b_unit_split: raw_word_ids(info.b_unit_split.as_slice()),
            word_structure: raw_word_ids(info.word_structure.as_slice()),
            synonym_group_ids: copy_vec(&info.synonym_group_ids),
        }
    }
}

} // verus!
