use std::sync::Arc;

use sudachi_swift::state::{ensure_split_subset, whole_surface_entries, LookupEntry};
use sudachi_swift::types::{copy_if_empty, matches_partial, part_of_speech_from_components, raw_word_ids, subset_from_fields};
use sudachi_swift::wrapped::morphemes_or_empty;
use sudachi_swift::{
    Analysis, DictionaryState, InfoSubset, InputText, MorphemeNodeSnapshot, PosMatcher, ResultNode,
    SudachiDictionary, SudachiError, SudachiInfoField, SudachiPartialPartOfSpeech,
    SudachiProjection, SudachiSplitMode, SudachiWordInfo, WordId, WordInfo, WrappedMode,
    WrappedMorpheme, WrappedSudachiError,
};

fn strings(items: &[&str]) -> Vec<String> {
    items.iter().map(|s| s.to_string()).collect()
}

fn pos_list() -> Vec<Vec<String>> {
    vec![
        strings(&["助詞", "格助詞", "*", "*", "*", "*"]),
        strings(&["動詞", "非自立可能", "*", "*", "五段-カ行", "終止形-一般"]),
        strings(&["形容詞", "一般", "*", "*", "形容詞", "連体形-一般"]),
        strings(&["名詞", "固有名詞", "地名", "一般", "*", "*"]),
        strings(&["名詞", "普通名詞", "一般", "*", "*", "*"]),
        strings(&["補助記号"]),
    ]
}

fn dictionary() -> Arc<SudachiDictionary> {
    SudachiDictionary::from_grammar(pos_list(), SudachiProjection::Surface)
}

fn identity_input(text: &str) -> InputText {
    let mut char_of_byte = Vec::new();
    let mut count = 0usize;
    for c in text.chars() {
        for _ in 0..c.len_utf8() {
            char_of_byte.push(count);
        }
        count += 1;
    }
    char_of_byte.push(count);
    InputText::new(text.to_string(), char_of_byte, (0..=count).collect())
}

fn err_of<T>(r: Result<T, SudachiError>) -> SudachiError {
    match r {
        Ok(_) => panic!("an error was expected"),
        Err(e) => e,
    }
}

fn wid(raw: u32) -> WordId {
    WordId { raw, dic: (raw >> 28) as u8, oov: false }
}

fn info(surface: &str, pos_id: u16) -> WordInfo {
    WordInfo {
        surface: surface.to_string(),
        head_word_length: surface.len() as u16,
        pos_id,
        normalized_form: surface.to_string(),
        dictionary_form_word_id: -1,
        dictionary_form: surface.to_string(),
        reading_form: surface.to_string(),
        a_unit_split: Vec::new(),
        b_unit_split: Vec::new(),
        word_structure: Vec::new(),
        synonym_group_ids: Vec::new(),
    }
}

fn node(word_info: WordInfo, word_id: WordId, total_cost: i32, begin: usize, end: usize, begin_bytes: usize, end_bytes: usize) -> ResultNode {
    ResultNode { word_info, word_id, total_cost, begin, end, begin_bytes, end_bytes }
}

fn all_fields_tokenizer(dict: &SudachiDictionary, mode: SudachiSplitMode) -> Arc<sudachi_swift::SudachiTokenizer> {
    dict.create_tokenizer(Some(mode), subset_from_fields(None, InfoSubset::empty()), dict.resolve_projection(None))
}

fn kyoto_tower() -> (Arc<SudachiDictionary>, Arc<sudachi_swift::SudachiMorpheme>) {
    let dict = dictionary();
    let tokenizer = all_fields_tokenizer(&dict, SudachiSplitMode::C);
    let mut word = info("京都タワー", 3);
    word.a_unit_split = vec![wid(1), wid(2), wid(3)];
    word.b_unit_split = vec![wid(1), wid(4)];
    let text = "京都タワー";
    let list = tokenizer
        .tokenize(Ok(Analysis { input: identity_input(text), nodes: vec![node(word, wid(9), 10, 0, 5, 0, 15)], subset: tokenizer.subset }))
        .unwrap();
    let morpheme = list.morpheme_at(0).unwrap();
    (dict, morpheme)
}

#[test]
fn split_units_tile_the_morpheme() {
    let (_dict, morpheme) = kyoto_tower();
    let units = vec![info("京都", 3), info("タ", 4), info("ワー", 4)];
    let split = morpheme.split(SudachiSplitMode::A, None, &units).unwrap();
    assert_eq!(split.count(), 3);
    let parts = split.morphemes();
    let begins: Vec<u64> = parts.iter().map(|m| m.begin()).collect();
    let ends: Vec<u64> = parts.iter().map(|m| m.end()).collect();
    assert_eq!(begins, vec![0, 2, 3]);
    assert_eq!(ends, vec![2, 3, 5]);
    let joined: String = parts.iter().map(|m| m.raw_surface()).collect();
    assert_eq!(joined, morpheme.raw_surface());
    assert_eq!(parts[0].word_id(), 1);
    assert_eq!(parts[2].word_id(), 3);
    // units of a split cost the most an i32 can hold, so the list's cost is zero
    assert_eq!(split.internal_cost(), 0);
}

#[test]
fn split_last_unit_ends_at_the_morpheme_whatever_its_length() {
    let (_dict, morpheme) = kyoto_tower();
    // the last unit's head-word length is ignored: it ends where the morpheme ends
    let units = vec![info("京都", 3), info("タ", 4)];
    let split = morpheme.split(SudachiSplitMode::B, None, &units).unwrap();
    assert_eq!(split.count(), 2);
    assert_eq!(split.morpheme_at(1).unwrap().raw_surface(), "タワー");
}

#[test]
fn split_without_units_gives_the_morpheme_itself_unless_refused() {
    let dict = dictionary();
    let tokenizer = all_fields_tokenizer(&dict, SudachiSplitMode::C);
    let list = tokenizer
        .tokenize(Ok(Analysis { input: identity_input("京"), nodes: vec![node(info("京", 4), wid(2), 7, 0, 1, 0, 3)], subset: tokenizer.subset }))
        .unwrap();
    let morpheme = list.morpheme_at(0).unwrap();
    let same = morpheme.split(SudachiSplitMode::A, None, &Vec::new()).unwrap();
    assert_eq!(same.count(), 1);
    assert_eq!(same.morpheme_at(0).unwrap().raw_surface(), "京");
    assert_eq!(same.morpheme_at(0).unwrap().word_id(), 2);
    let kept = morpheme.split(SudachiSplitMode::C, Some(true), &Vec::new()).unwrap();
    assert_eq!(kept.count(), 1);
    let none = morpheme.split(SudachiSplitMode::B, Some(false), &Vec::new()).unwrap();
    assert!(none.is_empty());
}

#[test]
fn split_with_wrong_information_is_an_internal_error() {
    let (_dict, morpheme) = kyoto_tower();
    let err = err_of(morpheme.split(SudachiSplitMode::A, None, &vec![info("京都", 3)]));
    assert!(matches!(err, SudachiError::Internal(_)));
    // a unit longer than the text
    let units = vec![info("京都タワー京都タワー", 3), info("タ", 4), info("ワー", 4)];
    let err = err_of(morpheme.split(SudachiSplitMode::A, None, &units));
    assert!(matches!(err, SudachiError::Internal(_)));
    // a unit whose part of speech the dictionary does not list is kept as it is
    let units = vec![info("京都", 3), info("タ", 40), info("ワー", 4)];
    let split = morpheme.split(SudachiSplitMode::A, None, &units).unwrap();
    let odd = split.morpheme_at(1).unwrap();
    assert_eq!(odd.part_of_speech_id(), 40);
    assert!(!odd.has_listed_part_of_speech());
    assert!(split.morpheme_at(0).unwrap().has_listed_part_of_speech());
}

#[test]
fn split_needs_the_unit_field_loaded() {
    let dict = dictionary();
    let subset = subset_from_fields(Some(vec![SudachiInfoField::SplitB]), InfoSubset::empty());
    let tokenizer = dict.create_tokenizer(None, subset, SudachiProjection::Surface);
    let list = tokenizer
        .tokenize(Ok(Analysis { input: identity_input("京都"), nodes: vec![node(info("京都", 3), wid(2), 0, 0, 2, 0, 6)], subset: subset }))
        .unwrap();
    let morpheme = list.morpheme_at(0).unwrap();
    match morpheme.split_plan(SudachiSplitMode::A) {
        Err(SudachiError::InvalidArgument(m)) => {
            assert_eq!(m, "split requires splitA to be loaded in tokenizer fields")
        }
        _ => panic!("split A should be refused"),
    }
    assert!(morpheme.split_plan(SudachiSplitMode::B).is_ok());
    assert!(morpheme.split_plan(SudachiSplitMode::C).unwrap().is_empty());
    let mut required = InfoSubset::empty();
    required.split_b = true;
    assert!(ensure_split_subset(&subset, &required, "splitB").is_ok());
}

#[test]
fn normalised_input_maps_back_to_the_original_text() {
    // original "ＡＢ" (full-width, 3 bytes each) analysed as "AB"
    let input = InputText::new("ＡＢ".to_string(), vec![0, 1, 2], vec![0, 1, 2]);
    let dict = dictionary();
    let tokenizer = all_fields_tokenizer(&dict, SudachiSplitMode::C);
    let list = tokenizer
        .tokenize(Ok(Analysis { input: input, nodes: vec![node(info("AB", 4), wid(2), 0, 0, 2, 0, 2)], subset: tokenizer.subset }))
        .unwrap();
    let m = list.morpheme_at(0).unwrap();
    assert_eq!(m.raw_surface(), "ＡＢ");
    assert_eq!(m.length(), 2);
}

#[test]
fn results_outside_the_tables_are_internal_errors() {
    let dict = dictionary();
    let tokenizer = all_fields_tokenizer(&dict, SudachiSplitMode::C);
    let err = err_of(tokenizer
        .tokenize(Ok(Analysis { input: identity_input("京"), nodes: vec![node(info("京", 4), wid(2), 0, 0, 4, 0, 3)], subset: tokenizer.subset }))
        );
    assert!(matches!(err, SudachiError::Internal(_)));
    let unlisted = tokenizer
        .tokenize(Ok(Analysis { input: identity_input("京"), nodes: vec![node(info("京", 99), wid(2), 0, 0, 1, 0, 3)], subset: tokenizer.subset }))
        .unwrap();
    assert!(!unlisted.morpheme_at(0).unwrap().has_listed_part_of_speech());
    let short = InputText::new("京".to_string(), vec![0], vec![0, 1]);
    let entries = vec![LookupEntry { word_id: wid(1), end: 3 }];
    let err = err_of(dict.lookup("京", Ok(short), &entries, Ok(vec![info("京", 4)])));
    assert!(matches!(err, SudachiError::Internal(_)));
    let err = err_of(dict.lookup("京", Ok(identity_input("京")), &entries, Ok(Vec::new())));
    assert!(matches!(err, SudachiError::Internal(_)));
}

#[test]
fn morpheme_list_counts_costs_and_indices() {
    let dict = dictionary();
    let tokenizer = all_fields_tokenizer(&dict, SudachiSplitMode::C);
    let text = "京都に";
    let list = tokenizer
        .tokenize(Ok(Analysis {
            input: identity_input(text),
            nodes: vec![
                node(info("京都", 3), wid(2), 100, 0, 2, 0, 6),
                node(info("に", 0), wid(3), 350, 2, 3, 6, 9),
            ],
            subset: tokenizer.subset,
        }))
        .unwrap();
    assert_eq!(list.count(), 2);
    assert_eq!(list.internal_cost(), 250);
    let all = list.morphemes();
    assert_eq!(all.len(), 2);
    assert_eq!(all[1].surface(), "に");
    assert_eq!(all[1].begin(), 2);
    match list.morpheme_at(5) {
        Err(SudachiError::InvalidArgument(m)) => {
            assert_eq!(m, "Morpheme index out of range: len is 2 but index was 5")
        }
        _ => panic!("index 5 should be refused"),
    }
    let wrapped = tokenizer
        .tokenize(Ok(Analysis {
            input: identity_input(text),
            nodes: vec![
                node(info("京都", 3), wid(2), i32::MIN, 0, 2, 0, 6),
                node(info("に", 0), wid(3), i32::MAX, 2, 3, 6, 9),
            ],
            subset: tokenizer.subset,
        }))
        .unwrap();
    assert_eq!(wrapped.internal_cost(), i32::MAX.wrapping_sub(i32::MIN));
}

#[test]
fn projections_keep_surfaces_of_conjugating_words() {
    let pos = pos_list();
    let state = DictionaryState::new(pos, SudachiProjection::Surface);
    assert!(state.conjugating_matcher.matches_id(1));
    assert!(state.conjugating_matcher.matches_id(2));
    assert!(!state.conjugating_matcher.matches_id(3));
    assert!(state.normalized_nouns_matcher.matches_id(3));
    assert!(!state.normalized_nouns_matcher.matches_id(5));
    let mut w = info("高い", 2);
    w.dictionary_form = "高い".into();
    w.normalized_form = "高い".into();
    let input = identity_input("高かっ");
    let n = MorphemeNodeSnapshot::new(&input, w, wid(1), 0, 0, 3, 0, 9).unwrap();
    assert_eq!(state.project(SudachiProjection::DictionaryAndSurface, &n), "高かっ");
    assert_eq!(state.project(SudachiProjection::Dictionary, &n), "高い");
    let noun = MorphemeNodeSnapshot::new(&identity_input("東京"), info("東京", 3), wid(1), 0, 0, 2, 0, 6).unwrap();
    assert_eq!(state.project(SudachiProjection::NormalizedNouns, &noun), "東京");
    assert_eq!(state.project(SudachiProjection::DictionaryAndSurface, &noun), "東京");
}

#[test]
fn matcher_set_algebra_laws_hold_on_values() {
    let a = PosMatcher::new(vec![1, 3, 3, 5]);
    let b = PosMatcher::new(vec![3, 4]);
    assert_eq!(a.num_entries(), 3);
    let u = a.union(&b);
    assert_eq!(u.num_entries(), 4);
    assert!(u.num_entries() >= a.num_entries() && u.num_entries() >= b.num_entries());
    let i = a.intersection(&b);
    assert_eq!(i.num_entries(), 1);
    assert!(i.matches_id(3));
    let d = u.difference(&a);
    assert_eq!(d.num_entries(), 1);
    assert!(d.matches_id(4) && !d.matches_id(3));
}

#[test]
fn inverted_matcher_complements_within_the_dictionary() {
    let dict = dictionary();
    let nouns = dict
        .make_pos_matcher(vec![SudachiPartialPartOfSpeech { level1: Some("名詞".into()), ..Default::default() }])
        .unwrap();
    assert_eq!(nouns.count(), 2);
    let inverted = nouns.inverted();
    assert_eq!(inverted.count(), 4);
    let twice = inverted.inverted();
    assert_eq!(twice.count(), nouns.count());
    for id in 0..6u16 {
        assert_eq!(inverted.matcher.matches_id(id), !nouns.matcher.matches_id(id));
        assert_eq!(twice.matcher.matches_id(id), nouns.matcher.matches_id(id));
    }
    let entries = nouns.entries();
    assert_eq!(entries.len(), 2);
    assert_eq!(entries[0].level2, "固有名詞");
    assert_eq!(entries[1].level2, "普通名詞");
}

#[test]
fn several_patterns_match_their_union_and_unmatched_ones_are_named() {
    let dict = dictionary();
    let m = dict
        .make_pos_matcher(vec![
            SudachiPartialPartOfSpeech { level1: Some("助詞".into()), ..Default::default() },
            SudachiPartialPartOfSpeech { level2: Some("固有名詞".into()), ..Default::default() },
        ])
        .unwrap();
    assert_eq!(m.count(), 2);
    assert!(m.matcher.matches_id(0) && m.matcher.matches_id(3));
    match dict.make_pos_matcher(vec![SudachiPartialPartOfSpeech { level4: Some("謎".into()), ..Default::default() }]) {
        Err(SudachiError::InvalidArgument(message)) => {
            assert!(message.starts_with("POS pattern "));
            assert!(message.contains("謎"));
            assert!(message.ends_with(" did not match any elements"));
        }
        _ => panic!("pattern should be refused"),
    }
    let everything = dict.make_pos_matcher(vec![SudachiPartialPartOfSpeech::default()]).unwrap();
    assert_eq!(everything.count(), 6);
    let nothing = dict.make_pos_matcher(Vec::new()).unwrap();
    assert_eq!(nothing.count(), 0);
}

#[test]
fn subsets_always_load_the_basic_fields() {
    let all = subset_from_fields(None, InfoSubset::empty());
    assert_eq!(all, InfoSubset::all());
    let mut reading = InfoSubset::empty();
    reading.reading_form = true;
    let some = subset_from_fields(Some(vec![SudachiInfoField::SplitA, SudachiInfoField::DictionaryForm]), reading);
    let mut expected = InfoSubset::empty();
    expected.surface = true;
    expected.head_word_length = true;
    expected.pos_id = true;
    expected.split_a = true;
    expected.dic_form_word_id = true;
    expected.reading_form = true;
    assert_eq!(some, expected);
    assert!(some.contains(&InfoSubset::from_field(SudachiInfoField::SplitA)));
    assert!(!some.contains(&InfoSubset::from_field(SudachiInfoField::SplitB)));
}

#[test]
fn word_information_is_presented_with_fallback_forms() {
    let mut w = info("東京", 3);
    w.normalized_form = String::new();
    w.dictionary_form = String::new();
    w.reading_form = "トウキョウ".into();
    w.a_unit_split = vec![WordId { raw: 7, dic: 0, oov: false }];
    let p = SudachiWordInfo::from_word_info(&w);
    assert_eq!(p.normalized_form, "東京");
    assert_eq!(p.dictionary_form, "東京");
    assert_eq!(p.reading_form, "トウキョウ");
    assert_eq!(p.a_unit_split, vec![7]);
    assert_eq!(copy_if_empty(String::new(), "x"), "x");
    assert_eq!(copy_if_empty("y".to_string(), "x"), "y");
    assert_eq!(raw_word_ids(&[wid(4), wid(1 << 28)]), vec![4, 1 << 28]);
}

#[test]
fn parts_of_speech_are_built_from_components() {
    let p = part_of_speech_from_components(&strings(&["名詞", "普通名詞"]));
    assert_eq!(p.level1, "名詞");
    assert_eq!(p.level2, "普通名詞");
    assert_eq!(p.level3, "");
    assert_eq!(p.conjugation_form, "");
    assert!(matches_partial(&None, &"x".to_string()));
    assert!(!matches_partial(&Some("y".to_string()), &"x".to_string()));
    let pattern = SudachiPartialPartOfSpeech { level1: Some("名詞".into()), ..Default::default() };
    assert!(pattern.matches(&p));
}

#[test]
fn lookup_keeps_only_entries_covering_the_surface() {
    let entries = vec![
        LookupEntry { word_id: wid(1), end: 3 },
        LookupEntry { word_id: wid(2), end: 6 },
        LookupEntry { word_id: wid(3), end: 6 },
    ];
    assert_eq!(whole_surface_entries("京都", &entries), vec![wid(2), wid(3)]);
    let dict = dictionary();
    let list = dict
        .lookup("京都", Ok(identity_input("京都")), &entries, Ok(vec![info("京都", 3), info("京都", 4)]))
        .unwrap();
    assert_eq!(list.count(), 2);
    assert_eq!(list.morpheme_at(1).unwrap().part_of_speech_id(), 4);
    assert_eq!(list.morpheme_at(1).unwrap().end(), 2);
    assert_eq!(list.internal_cost(), 0);
}

#[test]
fn errors_display_their_kind_and_message() {
    assert_eq!(SudachiError::config("bad".into()).to_display_string(), "Configuration error: bad");
    assert_eq!(SudachiError::dictionary("gone".into()).to_display_string(), "Dictionary error: gone");
    assert_eq!(SudachiError::tokenization("t".into()).to_display_string(), "Tokenization error: t");
    assert_eq!(SudachiError::invalid_argument("i".into()).to_display_string(), "Invalid argument: i");
    assert_eq!(SudachiError::Internal("x".into()).to_display_string(), "Internal error: x");
}

#[test]
fn flat_interface_modes_and_failures() {
    assert_eq!(WrappedMode::A.split_mode(), SudachiSplitMode::A);
    assert_eq!(WrappedMode::B.split_mode(), SudachiSplitMode::B);
    assert_eq!(WrappedMode::C.split_mode(), SudachiSplitMode::C);
    let ok = morphemes_or_empty(Ok(vec![WrappedMorpheme {
        surface: "京".into(),
        pos: strings(&["名詞"]),
        normalized_form: "京".into(),
        dictionary_form: "京".into(),
        reading_form: "キョウ".into(),
    }]));
    assert_eq!(ok.len(), 1);
    let failed = morphemes_or_empty(Err(WrappedSudachiError::Error("no".into())));
    assert!(failed.is_empty());
}

#[test]
fn objects_of_one_dictionary_combine() {
    let dict = dictionary();
    let a = dict.make_pos_matcher(vec![SudachiPartialPartOfSpeech { level1: Some("名詞".into()), ..Default::default() }]).unwrap();
    let b = dict.make_pos_matcher(vec![SudachiPartialPartOfSpeech { level1: Some("動詞".into()), ..Default::default() }]).unwrap();
    assert_eq!(a.union(&b).unwrap().count(), 3);
    assert_eq!(a.subtract(&b).unwrap().count(), 2);
    assert_eq!(a.intersection(&b).unwrap().count(), 0);
    let tokenizer = all_fields_tokenizer(&dict, SudachiSplitMode::B);
    assert_eq!(tokenizer.mode(), SudachiSplitMode::B);
    let default_mode = dict.create_tokenizer(None, InfoSubset::all(), SudachiProjection::Surface);
    assert_eq!(default_mode.mode(), SudachiSplitMode::C);
}

#[test]
fn analyser_and_dictionary_failures_carry_their_messages() {
    let dict = dictionary();
    let tokenizer = all_fields_tokenizer(&dict, SudachiSplitMode::C);
    match err_of(tokenizer.tokenize(Err("bad input".to_string()))) {
        SudachiError::Tokenization(m) => assert_eq!(m, "bad input"),
        _ => panic!("a tokenization error was expected"),
    }
    match err_of(dict.lookup("京", Err("no text".to_string()), &Vec::new(), Ok(Vec::new()))) {
        SudachiError::Tokenization(m) => assert_eq!(m, "no text"),
        _ => panic!("a tokenization error was expected"),
    }
    let entries = vec![LookupEntry { word_id: wid(1), end: 3 }];
    match err_of(dict.lookup("京", Ok(identity_input("京")), &entries, Err("unreadable".to_string()))) {
        SudachiError::Dictionary(m) => assert_eq!(m, "unreadable"),
        _ => panic!("a dictionary error was expected"),
    }
}

#[test]
fn refusals_say_why() {
    let dict = dictionary();
    let other = dictionary();
    let nouns = dict
        .make_pos_matcher(vec![SudachiPartialPartOfSpeech { level1: Some("名詞".into()), ..Default::default() }])
        .unwrap();
    let other_nouns = other
        .make_pos_matcher(vec![SudachiPartialPartOfSpeech { level1: Some("名詞".into()), ..Default::default() }])
        .unwrap();
    match err_of(nouns.intersection(&other_nouns)) {
        SudachiError::InvalidArgument(m) => assert_eq!(m, "objects were created from different dictionaries"),
        _ => panic!("an invalid-argument error was expected"),
    }
    let snapshot = sudachi_swift::state::build_tokenized_snapshot(
        dict.state.clone(),
        Ok(Analysis { input: identity_input("京"), nodes: vec![node(info("京", 4), wid(2), 0, 0, 1, 0, 3)], subset: InfoSubset::all() }),
        SudachiProjection::Surface,
    )
    .unwrap();
    match err_of(snapshot.split_plan(3, SudachiSplitMode::C)) {
        SudachiError::InvalidArgument(m) => assert_eq!(m, "morpheme index was out of range"),
        _ => panic!("an invalid-argument error was expected"),
    }
    let first_miss = dict.make_pos_matcher(vec![
        SudachiPartialPartOfSpeech { level1: Some("名詞".into()), ..Default::default() },
        SudachiPartialPartOfSpeech { level1: Some("無1".into()), ..Default::default() },
        SudachiPartialPartOfSpeech { level1: Some("無2".into()), ..Default::default() },
    ]);
    match err_of(first_miss) {
        SudachiError::InvalidArgument(m) => {
            let expected = format!(
                "POS pattern {:?} did not match any elements",
                SudachiPartialPartOfSpeech { level1: Some("無1".into()), ..Default::default() }
            );
            assert_eq!(m, expected);
        }
        _ => panic!("an invalid-argument error was expected"),
    }
    match err_of(dict.lookup("京", Ok(identity_input("京")), &Vec::new(), Ok(vec![info("京", 4)]))) {
        SudachiError::Internal(_) => {}
        _ => panic!("an internal error was expected"),
    }
}

#[test]
fn empty_stored_forms_show_the_surface() {
    let state = DictionaryState::new(pos_list(), SudachiProjection::Surface);
    let mut w = info("東京", 3);
    w.normalized_form = String::new();
    w.dictionary_form = String::new();
    w.reading_form = String::new();
    assert_eq!(w.normalized_form(), "東京");
    assert_eq!(w.dictionary_form(), "東京");
    assert_eq!(w.reading_form(), "東京");
    let n = MorphemeNodeSnapshot::new(&identity_input("東京"), w.clone(), wid(1), 0, 0, 2, 0, 6).unwrap();
    for projection in [
        SudachiProjection::Surface,
        SudachiProjection::Normalized,
        SudachiProjection::Reading,
        SudachiProjection::Dictionary,
        SudachiProjection::DictionaryAndSurface,
        SudachiProjection::NormalizedAndSurface,
        SudachiProjection::NormalizedNouns,
    ] {
        assert_eq!(state.project(projection, &n), "東京");
    }
    // a stored form that is not empty is shown as it is
    let mut v = info("行く", 1);
    v.normalized_form = "行く".into();
    v.reading_form = "イク".into();
    v.dictionary_form = String::new();
    let m = MorphemeNodeSnapshot::new(&identity_input("行っ"), v, wid(2), 0, 0, 2, 0, 6).unwrap();
    assert_eq!(state.project(SudachiProjection::Reading, &m), "イク");
    assert_eq!(state.project(SudachiProjection::Dictionary, &m), "行く");
    assert_eq!(state.project(SudachiProjection::DictionaryAndSurface, &m), "行っ");

    // the morpheme's accessors and its presented word information agree
    let dict = dictionary();
    let tokenizer = all_fields_tokenizer(&dict, SudachiSplitMode::C);
    let list = tokenizer
        .tokenize(Ok(Analysis { input: identity_input("東京"), nodes: vec![node(w, wid(7), 5, 0, 2, 0, 6)], subset: tokenizer.subset }))
        .unwrap();
    let morpheme = list.morpheme_at(0).unwrap();
    assert_eq!(morpheme.normalized_form(), "東京");
    assert_eq!(morpheme.dictionary_form(), "東京");
    assert_eq!(morpheme.reading_form(), "東京");
    let presented = morpheme.word_info();
    assert_eq!(presented.normalized_form, morpheme.normalized_form());
    assert_eq!(presented.reading_form, morpheme.reading_form());
}

#[test]
fn matcher_counts_agree_with_entries_and_inverse() {
    let dict = dictionary();
    let listed = 6u64;
    for pattern in [
        SudachiPartialPartOfSpeech { level1: Some("名詞".into()), ..Default::default() },
        SudachiPartialPartOfSpeech { level1: Some("助詞".into()), ..Default::default() },
        SudachiPartialPartOfSpeech::default(),
    ] {
        let m = dict.make_pos_matcher(vec![pattern.clone(), pattern]).unwrap();
        assert_eq!(m.count(), m.entries().len() as u64);
        let inverse = m.inverted();
        assert_eq!(inverse.count(), listed - m.count());
        assert_eq!(inverse.count(), inverse.entries().len() as u64);
    }
}

#[test]
fn contiguous_analysis_tiles_the_text() {
    let dict = dictionary();
    let tokenizer = all_fields_tokenizer(&dict, SudachiSplitMode::C);
    let text = "京都に行く";
    let list = tokenizer
        .tokenize(Ok(Analysis {
            input: identity_input(text),
            nodes: vec![
                node(info("京都", 3), wid(1), 10, 0, 2, 0, 6),
                node(info("に", 0), wid(2), 20, 2, 3, 6, 9),
                node(info("行く", 1), wid(3), 30, 3, 5, 9, 15),
            ],
            subset: tokenizer.subset,
        }))
        .unwrap();
    let parts = list.morphemes();
    assert_eq!(parts[0].begin(), 0);
    for i in 0..parts.len() - 1 {
        assert_eq!(parts[i].end(), parts[i + 1].begin());
    }
    assert_eq!(parts[parts.len() - 1].end(), 5);
    let joined: String = parts.iter().map(|m| m.raw_surface()).collect();
    assert_eq!(joined, text);
}
