use std::sync::Arc;

use sudachi_swift::state::{whole_surface_entries, LookupEntry};
use sudachi_swift::types::subset_from_fields;
use sudachi_swift::{
    Analysis, InfoSubset, InputText, ResultNode, SudachiDictionary, SudachiError, SudachiInfoField,
    SudachiPartOfSpeech, SudachiPartialPartOfSpeech, SudachiProjection, SudachiSplitMode,
    SudachiTokenizer, WordId, WordInfo,
};

fn strings(items: &[&str]) -> Vec<String> {
    items.iter().map(|s| s.to_string()).collect()
}

/// The parts of speech of the test grammar.
fn pos_list() -> Vec<Vec<String>> {
    vec![
        strings(&["助詞", "格助詞", "*", "*", "*", "*"]),
        strings(&["動詞", "非自立可能", "*", "*", "五段-カ行", "終止形-一般"]),
        strings(&["動詞", "非自立可能", "*", "*", "五段-カ行", "連用形-促音便"]),
        strings(&["名詞", "固有名詞", "地名", "一般", "*", "*"]),
        strings(&["名詞", "普通名詞", "一般", "*", "*", "*"]),
    ]
}

fn test_dictionary(projection: Option<SudachiProjection>) -> Arc<SudachiDictionary> {
    SudachiDictionary::from_grammar(pos_list(), projection.unwrap_or(SudachiProjection::Surface))
}

/// An input text whose modified text is the original one.
fn input_of(text: &str) -> InputText {
    let mut char_of_byte = Vec::new();
    let mut count = 0usize;
    for c in text.chars() {
        for _ in 0..c.len_utf8() {
            char_of_byte.push(count);
        }
        count += 1;
    }
    char_of_byte.push(count);
    let orig_char_of_char: Vec<usize> = (0..=count).collect();
    InputText::new(text.to_string(), char_of_byte, orig_char_of_char)
}

fn wid(raw: u32) -> WordId {
    WordId { raw, dic: (raw >> 28) as u8, oov: false }
}

fn oov_id() -> WordId {
    WordId { raw: u32::MAX, dic: 0xf, oov: true }
}

fn info(surface: &str, pos_id: u16, normalized: &str, dictionary: &str, reading: &str) -> WordInfo {
    WordInfo {
        surface: surface.to_string(),
        head_word_length: surface.len() as u16,
        pos_id,
        normalized_form: normalized.to_string(),
        dictionary_form_word_id: -1,
        dictionary_form: dictionary.to_string(),
        reading_form: reading.to_string(),
        a_unit_split: Vec::new(),
        b_unit_split: Vec::new(),
        word_structure: Vec::new(),
        synonym_group_ids: Vec::new(),
    }
}

/// Result nodes laid one after another over `text`.
fn nodes_over(text: &str, words: Vec<(WordInfo, WordId, i32)>) -> Vec<ResultNode> {
    let mut out = Vec::new();
    let mut byte = 0usize;
    let mut ch = 0usize;
    let _ = text;
    for (word_info, word_id, total_cost) in words {
        let bytes = word_info.surface.len();
        let chars = word_info.surface.chars().count();
        out.push(ResultNode {
            word_info,
            word_id,
            total_cost,
            begin: ch,
            end: ch + chars,
            begin_bytes: byte,
            end_bytes: byte + bytes,
        });
        byte += bytes;
        ch += chars;
    }
    out
}

fn tokenizer(
    dict: &SudachiDictionary,
    mode: Option<SudachiSplitMode>,
    fields: Option<Vec<SudachiInfoField>>,
    projection: Option<SudachiProjection>,
) -> Arc<SudachiTokenizer> {
    let projection = dict.resolve_projection(projection);
    let subset = subset_from_fields(fields, InfoSubset::empty());
    dict.create_tokenizer(mode, subset, projection)
}

fn tokenize(
    tokenizer: &SudachiTokenizer,
    text: &str,
    words: Vec<(WordInfo, WordId, i32)>,
) -> Result<Arc<sudachi_swift::SudachiMorphemeList>, SudachiError> {
    let nodes = nodes_over(text, words);
    tokenizer.tokenize(Ok(Analysis { input: input_of(text), nodes, subset: tokenizer.subset }))
}

fn tokyo_to() -> WordInfo {
    let mut w = info("東京都", 3, "東京都", "東京都", "トウキョウト");
    w.a_unit_split = vec![wid(5), wid(9)];
    w
}

fn tokyo_to_units() -> Vec<WordInfo> {
    vec![info("東京", 3, "東京", "東京", "トウキョウ"), info("都", 4, "都", "都", "ト")]
}

fn noun_pattern() -> SudachiPartialPartOfSpeech {
    SudachiPartialPartOfSpeech { level1: Some("名詞".into()), ..Default::default() }
}

#[test]
fn dictionary_projection_default_and_override_work() {
    let dict = test_dictionary(Some(SudachiProjection::Reading));
    let kyoto = || vec![(info("京都", 3, "京都", "京都", "キョウト"), wid(7), 0)];
    let itt = || vec![(info("行っ", 2, "行く", "行く", "イッ"), wid(11), 0)];

    let default_tokenizer = tokenizer(&dict, None, None, None);
    let default_list = tokenize(&default_tokenizer, "京都", kyoto())
        .expect("default tokenization should succeed");
    let default_morpheme = default_list.morpheme_at(0).expect("first morpheme should exist");
    assert_eq!(default_morpheme.surface(), "キョウト");
    assert_eq!(default_morpheme.raw_surface(), "京都");

    let surface_tokenizer = tokenizer(&dict, None, None, Some(SudachiProjection::Surface));
    let surface_list =
        tokenize(&surface_tokenizer, "京都", kyoto()).expect("surface tokenization should succeed");
    assert_eq!(
        surface_list.morpheme_at(0).expect("first morpheme should exist").surface(),
        "京都"
    );

    let dictionary_tokenizer = tokenizer(&dict, None, None, Some(SudachiProjection::Dictionary));
    let dictionary_list = tokenize(&dictionary_tokenizer, "行っ", itt())
        .expect("dictionary projection should succeed");
    assert_eq!(
        dictionary_list.morpheme_at(0).expect("first morpheme should exist").surface(),
        "行く"
    );

    let keep_surface_tokenizer =
        tokenizer(&dict, None, None, Some(SudachiProjection::DictionaryAndSurface));
    let keep_surface_list = tokenize(&keep_surface_tokenizer, "行っ", itt())
        .expect("dictionary_and_surface projection should succeed");
    assert_eq!(
        keep_surface_list.morpheme_at(0).expect("first morpheme should exist").surface(),
        "行っ"
    );

    let normalized_tokenizer = tokenizer(&dict, None, None, Some(SudachiProjection::Normalized));
    let normalized_list = tokenize(&normalized_tokenizer, "行っ", itt())
        .expect("normalized projection should succeed");
    assert_eq!(
        normalized_list.morpheme_at(0).expect("first morpheme should exist").surface(),
        "行く"
    );

    let normalized_and_surface_tokenizer =
        tokenizer(&dict, None, None, Some(SudachiProjection::NormalizedAndSurface));
    let normalized_and_surface_list = tokenize(&normalized_and_surface_tokenizer, "行っ", itt())
        .expect("normalized_and_surface projection should succeed");
    assert_eq!(
        normalized_and_surface_list.morpheme_at(0).expect("first morpheme should exist").surface(),
        "行っ"
    );

    let normalized_nouns_tokenizer =
        tokenizer(&dict, None, None, Some(SudachiProjection::NormalizedNouns));
    let normalized_nouns_list = tokenize(&normalized_nouns_tokenizer, "行っ", itt())
        .expect("normalized_nouns projection should succeed");
    assert_eq!(
        normalized_nouns_list.morpheme_at(0).expect("first morpheme should exist").surface(),
        "行っ"
    );
}

#[test]
fn tokenize_returns_morpheme_list_and_supports_split() {
    let dict = test_dictionary(None);
    let tokenizer = tokenizer(&dict, Some(SudachiSplitMode::C), None, None);

    let list = tokenize(&tokenizer, "東京都", vec![(tokyo_to(), wid(3), 5000)])
        .expect("mode C tokenization should succeed");
    assert_eq!(list.count(), 1);
    assert!(!list.is_empty());
    assert_eq!(list.morphemes().len(), 1);

    let morpheme = list.morpheme_at(0).expect("first morpheme should exist");
    assert_eq!(morpheme.begin(), 0);
    assert_eq!(morpheme.end(), 3);
    assert_eq!(morpheme.length(), 3);
    assert_eq!(morpheme.surface(), "東京都");
    assert_eq!(morpheme.raw_surface(), "東京都");
    assert_eq!(morpheme.dictionary_form(), "東京都");
    assert_eq!(morpheme.normalized_form(), "東京都");
    assert_eq!(morpheme.reading_form(), "トウキョウト");
    assert_eq!(morpheme.part_of_speech_id(), 3);
    assert_eq!(
        morpheme.part_of_speech(),
        SudachiPartOfSpeech {
            level1: "名詞".into(),
            level2: "固有名詞".into(),
            level3: "地名".into(),
            level4: "一般".into(),
            conjugation_type: "*".into(),
            conjugation_form: "*".into(),
        }
    );
    assert_eq!(morpheme.dictionary_id(), 0);
    assert!(!morpheme.is_oov());

    let plan = morpheme.split_plan(SudachiSplitMode::A).expect("split should be allowed");
    assert_eq!(plan, vec![wid(5), wid(9)]);
    let split = morpheme
        .split(SudachiSplitMode::A, None, &tokyo_to_units())
        .expect("split should succeed");
    assert_eq!(split.count(), 2);
    assert_eq!(split.morpheme_at(0).expect("split morpheme 0 should exist").surface(), "東京");
    assert_eq!(split.morpheme_at(1).expect("split morpheme 1 should exist").surface(), "都");
}

#[test]
fn word_info_and_user_dictionary_metadata_are_exposed() {
    let dict = test_dictionary(None);
    let tokenizer = tokenizer(&dict, Some(SudachiSplitMode::C), None, None);

    let mut fu = info("東京府", 3, "東京府", "", "トウキョウフ");
    fu.a_unit_split = vec![wid(5), wid((1u32 << 28) + 1)];
    fu.word_structure = vec![wid(5), wid((1u32 << 28) + 1)];
    fu.synonym_group_ids = vec![1, 3];
    let tokyo_pref = tokenize(&tokenizer, "東京府", vec![(fu, wid(6), 0)])
        .expect("tokenization should succeed")
        .morpheme_at(0)
        .expect("first morpheme should exist");
    let info = tokyo_pref.word_info();
    assert_eq!(info.surface, "東京府");
    assert_eq!(info.head_word_length, 9);
    assert_eq!(info.pos_id, 3);
    assert_eq!(info.dictionary_form_word_id, -1);
    assert_eq!(info.dictionary_form, "東京府");
    assert_eq!(info.normalized_form, "東京府");
    assert_eq!(info.reading_form, "トウキョウフ");
    assert_eq!(info.a_unit_split, vec![5, (1u32 << 28) + 1]);
    assert_eq!(info.b_unit_split, Vec::<u32>::new());
    assert_eq!(info.word_structure, vec![5, (1u32 << 28) + 1]);
    assert_eq!(info.synonym_group_ids, vec![1, 3]);

    let user_word = tokenize(
        &tokenizer,
        "ぴらる",
        vec![(super_info("ぴらる"), wid(1u32 << 28), 0)],
    )
    .expect("user dictionary tokenization should succeed")
    .morpheme_at(0)
    .expect("first morpheme should exist");
    assert_eq!(user_word.word_id(), 1u32 << 28);
    assert_eq!(user_word.dictionary_id(), 1);

    let oov = tokenize(&tokenizer, "京", vec![(info_oov("京"), oov_id(), 0)])
        .expect("oov tokenization should succeed")
        .morpheme_at(0)
        .expect("first morpheme should exist");
    assert!(oov.is_oov());
    assert!(oov.dictionary_id() < 0);
}

fn super_info(surface: &str) -> WordInfo {
    info(surface, 4, surface, surface, "ピラル")
}

fn info_oov(surface: &str) -> WordInfo {
    info(surface, 4, surface, surface, surface)
}

#[test]
fn lookup_and_part_of_speech_queries_work() {
    let dict = test_dictionary(None);

    let pos = dict.part_of_speech(3).expect("POS id 3 should exist");
    assert_eq!(
        pos,
        SudachiPartOfSpeech {
            level1: "名詞".into(),
            level2: "固有名詞".into(),
            level3: "地名".into(),
            level4: "一般".into(),
            conjugation_type: "*".into(),
            conjugation_form: "*".into(),
        }
    );

    let surface = "ぴらる";
    let entries = vec![
        LookupEntry { word_id: wid(12), end: 3 },
        LookupEntry { word_id: wid((1u32 << 28) + 0), end: surface.len() },
    ];
    let ids = whole_surface_entries(surface, &entries);
    assert_eq!(ids, vec![wid(1u32 << 28)]);
    let infos: Vec<WordInfo> = ids.iter().map(|_| super_info(surface)).collect();
    let looked_up =
        dict.lookup(surface, Ok(input_of(surface)), &entries, Ok(infos)).expect("lookup should succeed");
    assert_eq!(looked_up.count(), 1);
    let morpheme = looked_up.morpheme_at(0).expect("looked up morpheme should exist");
    assert_eq!(morpheme.surface(), "ぴらる");
    assert_eq!(morpheme.dictionary_id(), 1);
    assert_eq!(morpheme.word_id(), (1u32 << 28) + 0);
}

#[test]
fn lookup_uses_default_projection_and_preserves_boundaries() {
    let dict = test_dictionary(Some(SudachiProjection::Reading));

    let entries = vec![LookupEntry { word_id: wid(3), end: "東京都".len() }];
    let looked_up = dict
        .lookup("東京都", Ok(input_of("東京都")), &entries, Ok(vec![tokyo_to()]))
        .expect("lookup should succeed");
    assert_eq!(looked_up.count(), 1);
    let morpheme = looked_up.morpheme_at(0).expect("looked up morpheme should exist");
    assert_eq!(morpheme.surface(), "トウキョウト");
    assert_eq!(morpheme.raw_surface(), "東京都");
    assert_eq!(morpheme.begin(), 0);
    assert_eq!(morpheme.end(), 3);

    let split = morpheme
        .split(SudachiSplitMode::A, None, &tokyo_to_units())
        .expect("lookup split should succeed");
    assert_eq!(split.count(), 2);
    assert_eq!(
        split.morpheme_at(0).expect("split morpheme 0 should exist").surface(),
        "トウキョウ"
    );
    assert_eq!(split.morpheme_at(0).expect("split morpheme 0 should exist").raw_surface(), "東京");
    assert_eq!(split.morpheme_at(1).expect("split morpheme 1 should exist").surface(), "ト");
}

#[test]
fn empty_and_error_paths_return_stable_results() {
    let dict = test_dictionary(None);
    let tokenizer = tokenizer(&dict, Some(SudachiSplitMode::C), None, None);

    let empty_lookup =
        dict.lookup("存在しない", Ok(input_of("存在しない")), &Vec::new(), Ok(Vec::new()))
            .expect("lookup should succeed");
    assert!(empty_lookup.is_empty());
    assert_eq!(empty_lookup.count(), 0);
    assert_eq!(empty_lookup.internal_cost(), 0);
    assert!(dict.part_of_speech(u16::MAX).is_none());

    let list = tokenize(&tokenizer, "京都", vec![(info("京都", 3, "京都", "京都", "キョウト"), wid(7), 0)])
        .expect("tokenization should succeed");
    let err = match list.morpheme_at(1) {
        Ok(_) => panic!("out of range index should fail"),
        Err(err) => err,
    };
    assert!(matches!(err, SudachiError::InvalidArgument(_)));

    let morpheme = list.morpheme_at(0).expect("first morpheme should exist");
    let empty_split = morpheme
        .split(SudachiSplitMode::C, Some(false), &Vec::new())
        .expect("mode C split should succeed");
    assert!(empty_split.is_empty());
    assert_eq!(empty_split.count(), 0);
    assert_eq!(empty_split.internal_cost(), 0);
}

#[test]
fn pos_matcher_supports_matching_and_set_operations() {
    let dict = test_dictionary(None);
    let noun_matcher = dict
        .make_pos_matcher(vec![noun_pattern()])
        .expect("noun matcher should be created");
    let terminal_form_matcher = dict
        .make_pos_matcher(vec![SudachiPartialPartOfSpeech {
            conjugation_form: Some("終止形-一般".into()),
            ..Default::default()
        }])
        .expect("terminal matcher should be created");

    let tokenizer = tokenizer(&dict, Some(SudachiSplitMode::A), None, None);
    let list = tokenize(
        &tokenizer,
        "東京に行く",
        vec![
            (info("東京", 3, "東京", "東京", "トウキョウ"), wid(4), 100),
            (info("に", 0, "に", "に", "ニ"), wid(20), 200),
            (info("行く", 1, "行く", "行く", "イク"), wid(30), 300),
        ],
    )
    .expect("tokenization should succeed");
    let tokyo = list.morpheme_at(0).expect("first morpheme should exist");
    let iku = list.morpheme_at(2).expect("third morpheme should exist");

    assert!(noun_matcher.matches(&tokyo).expect("matcher should work"));
    assert!(!noun_matcher.matches(&iku).expect("matcher should work"));

    let union = noun_matcher.union(&terminal_form_matcher).expect("union should succeed");
    assert!(union.count() >= noun_matcher.count());

    let intersection =
        noun_matcher.intersection(&terminal_form_matcher).expect("intersection should succeed");
    assert_eq!(intersection.count(), 0);

    let subtraction = union.subtract(&noun_matcher).expect("subtract should succeed");
    assert!(subtraction.count() <= union.count());

    let inverted = noun_matcher.inverted();
    assert!(inverted.count() > 0);
    assert!(!inverted.matches(&tokyo).expect("matcher should work"));
}

#[test]
fn pos_matcher_rejects_invalid_patterns_and_cross_dictionary_objects() {
    let dict = test_dictionary(None);
    let other_dict = test_dictionary(None);

    let err = match dict.make_pos_matcher(vec![SudachiPartialPartOfSpeech {
        level1: Some("存在しない品詞".into()),
        ..Default::default()
    }]) {
        Ok(_) => panic!("unmatched pattern should fail"),
        Err(err) => err,
    };
    assert!(matches!(err, SudachiError::InvalidArgument(_)));

    let noun_matcher = dict.make_pos_matcher(vec![noun_pattern()]).expect("noun matcher should be created");
    let other_noun_matcher = other_dict
        .make_pos_matcher(vec![noun_pattern()])
        .expect("other noun matcher should be created");
    let other_tokenizer = tokenizer(&other_dict, Some(SudachiSplitMode::C), None, None);
    let other_morpheme = tokenize(
        &other_tokenizer,
        "東京",
        vec![(info("東京", 3, "東京", "東京", "トウキョウ"), wid(4), 0)],
    )
    .expect("tokenization should succeed")
    .morpheme_at(0)
    .expect("first morpheme should exist");

    let err = match noun_matcher.matches(&other_morpheme) {
        Ok(_) => panic!("cross-dictionary matcher usage should fail"),
        Err(err) => err,
    };
    assert!(matches!(err, SudachiError::InvalidArgument(_)));

    let err = match noun_matcher.union(&other_noun_matcher) {
        Ok(_) => panic!("cross-dictionary matcher union should fail"),
        Err(err) => err,
    };
    assert!(matches!(err, SudachiError::InvalidArgument(_)));
}

#[test]
fn fields_control_split_capability_without_breaking_basic_pos_access() {
    let dict = test_dictionary(None);
    let tokenizer = tokenizer(
        &dict,
        Some(SudachiSplitMode::C),
        Some(vec![SudachiInfoField::PartOfSpeech]),
        None,
    );

    let list = tokenize(&tokenizer, "東京都", vec![(tokyo_to(), wid(3), 0)])
        .expect("subset tokenization should succeed");
    let morpheme = list.morpheme_at(0).expect("first morpheme should exist");
    assert_eq!(morpheme.part_of_speech_id(), 3);
    assert_eq!(morpheme.word_info().surface, "東京都");

    let err = match morpheme.split(SudachiSplitMode::A, None, &tokyo_to_units()) {
        Ok(_) => panic!("split should require split_a data"),
        Err(err) => err,
    };
    assert!(matches!(err, SudachiError::InvalidArgument(_)));
}
