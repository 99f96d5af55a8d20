use vstd::prelude::*;

use crate::input::InputText;
use crate::objects::{index_ids, listed_entries, SudachiPosMatcher};
use crate::state::{
    conjugating_level, listed_ids, matched_ids, precomputed_ids, split_allowed, split_unit_ids, node_view, results_fit, ResultNode, no_conjugation_level, projected, DictionaryState, node_fits, piece_byte_begin, piece_char_begin, piece_char_end, piece_ok, piece_view,
    split_fits, MorphemeNodeView,
};
use crate::types::{
    SudachiPartOfSpeech, SudachiPartialPartOfSpeech, SudachiProjection, SudachiSplitMode, spec_subset_from_fields, InfoSubset, SudachiInfoField, SudachiWordInfo,
    WordId, WordInfo, WordInfoView,
};

verus! {

/// The units of a split, as [`crate::state::MorphemeListSnapshot::split_node`] builds them.
pub open spec fn split_pieces(
    node: MorphemeNodeView,
    input: InputText,
    infos: Seq<WordInfo>,
    ids: Seq<WordId>,
) -> Seq<MorphemeNodeView> {
    Seq::new(infos.len(), |i: int| piece_view(node, input, infos, ids[i], i))
}

/// The raw surfaces of a sequence of morphemes, one after the other.
pub open spec fn concat_surfaces(pieces: Seq<MorphemeNodeView>) -> Seq<char>
    decreases pieces.len(),
{
    if pieces.len() == 0 {
        Seq::empty()
    } else {
        concat_surfaces(pieces.drop_last()) + pieces.last().raw_surface
    }
}

/// `node` lies over `input` as the bindings build morphemes: its original range is the image
/// of its modified range, and its raw surface is the original text there.
pub open spec fn lies_over(node: MorphemeNodeView, input: InputText) -> bool {
    let table = input.orig_char_table();
    &&& node_fits(input, node.modified_begin_char as int, node.modified_end_char as int)
    &&& node.original_begin_char == table[node.modified_begin_char as int]
    &&& node.original_end_char == table[node.modified_end_char as int]
    &&& node.raw_surface == input.original_chars().subrange(
        node.original_begin_char as int,
        node.original_end_char as int,
    )
}

proof fn lemma_piece_bounds(
    node: MorphemeNodeView,
    input: InputText,
    infos: Seq<WordInfo>,
    i: int,
)
    requires
        0 <= i < infos.len(),
        split_fits(node, input, infos),
    ensures
        0 <= piece_char_begin(node, input, infos, i) <= usize::MAX,
        0 <= piece_char_end(node, input, infos, i) <= usize::MAX,
        0 <= piece_byte_begin(node.modified_begin_byte as int, infos, i) <= usize::MAX,
        i < infos.len() - 1 ==> 0 <= piece_byte_begin(node.modified_begin_byte as int, infos, i + 1)
            <= usize::MAX,
{
    input.lemma_table_bounds();
    assert(piece_ok(node, input, infos, i));
    if i > 0 {
        assert(piece_ok(node, input, infos, i - 1));
        lemma_byte_begin_nonnegative(node.modified_begin_byte as int, infos, i);
    }
    if i < infos.len() - 1 {
        lemma_byte_begin_nonnegative(node.modified_begin_byte as int, infos, i + 1);
    }
}

proof fn lemma_byte_begin_nonnegative(start: int, infos: Seq<WordInfo>, i: int)
    requires
        start >= 0,
    ensures
        piece_byte_begin(start, infos, i) >= 0,
    decreases i,
{
    if i > 0 {
        lemma_byte_begin_nonnegative(start, infos, i - 1);
    }
}

proof fn lemma_concat_prefix(
    node: MorphemeNodeView,
    input: InputText,
    infos: Seq<WordInfo>,
    ids: Seq<WordId>,
    k: int,
)
    requires
        1 <= k <= infos.len(),
        ids.len() == infos.len(),
        split_fits(node, input, infos),
        lies_over(node, input),
    ensures
        node.original_begin_char <= input.orig_char_table()[piece_char_end(node, input, infos, k - 1)]
            <= input.original_chars().len(),
        concat_surfaces(split_pieces(node, input, infos, ids).take(k)) == input.original_chars().subrange(
            node.original_begin_char as int,
            input.orig_char_table()[piece_char_end(node, input, infos, k - 1)] as int,
        ),
    decreases k,
{
    let pieces = split_pieces(node, input, infos, ids);
    let table = input.orig_char_table();
    let text = input.original_chars();
    let i = k - 1;
    lemma_piece_bounds(node, input, infos, i);
    assert(piece_ok(node, input, infos, i));
    let begin = table[piece_char_begin(node, input, infos, i)] as int;
    let end = table[piece_char_end(node, input, infos, i)] as int;
    assert(pieces[i].raw_surface == text.subrange(begin, end));
    assert(pieces.take(k).drop_last() =~= pieces.take(k - 1));
    assert(pieces.take(k).last() == pieces[i]);
    if k == 1 {
        assert(pieces.take(0) =~= Seq::<MorphemeNodeView>::empty());
        assert(concat_surfaces(pieces.take(0)) == Seq::<char>::empty());
        assert(begin == node.original_begin_char);
        assert(concat_surfaces(pieces.take(1)) =~= text.subrange(begin, end));
    } else {
        lemma_concat_prefix(node, input, infos, ids, k - 1);
        lemma_piece_bounds(node, input, infos, i - 1);
        assert(piece_ok(node, input, infos, i - 1));
        assert(piece_char_end(node, input, infos, i - 1) == piece_char_begin(node, input, infos, i));
        assert(text.subrange(node.original_begin_char as int, begin) + text.subrange(begin, end)
            =~= text.subrange(node.original_begin_char as int, end));
    }
}

/// The units of a split tile the morpheme they split: the first begins where the morpheme
/// begins, each of the others where the previous one ends, the last ends where the morpheme
/// ends, in modified characters, modified bytes and original characters alike; their raw
/// surfaces, one after the other, are the morpheme's raw surface; and each unit carries its
/// own word identifier and word information, at cost `i32::MAX`.
pub proof fn law_split_tiles(
    node: MorphemeNodeView,
    input: InputText,
    infos: Seq<WordInfo>,
    ids: Seq<WordId>,
)
    requires
        infos.len() > 0,
        ids.len() == infos.len(),
        split_fits(node, input, infos),
        lies_over(node, input),
    ensures
        ({
            let pieces = split_pieces(node, input, infos, ids);
            let n = infos.len() as int;
            &&& pieces[0].modified_begin_char == node.modified_begin_char
            &&& pieces[0].modified_begin_byte == node.modified_begin_byte
            &&& pieces[0].original_begin_char == node.original_begin_char
            &&& pieces[n - 1].modified_end_char == node.modified_end_char
            &&& pieces[n - 1].modified_end_byte == node.modified_end_byte
            &&& pieces[n - 1].original_end_char == node.original_end_char
            &&& forall|i: int|
                0 <= i < n - 1 ==> {
                    &&& (#[trigger] pieces[i]).modified_end_char == pieces[i + 1].modified_begin_char
                    &&& pieces[i].modified_end_byte == pieces[i + 1].modified_begin_byte
                    &&& pieces[i].original_end_char == pieces[i + 1].original_begin_char
                    &&& pieces[i].modified_end_byte == pieces[i].modified_begin_byte
                        + infos[i].head_word_length
                }
            &&& concat_surfaces(pieces) == node.raw_surface
            &&& forall|i: int|
                0 <= i < n ==> (#[trigger] pieces[i]).word_id == ids[i] && pieces[i].total_cost
                    == i32::MAX && pieces[i].word_info == infos[i]@
        }),
{
    let pieces = split_pieces(node, input, infos, ids);
    let n = infos.len() as int;
    lemma_piece_bounds(node, input, infos, 0);
    lemma_piece_bounds(node, input, infos, n - 1);
    assert forall|i: int| 0 <= i < n - 1 implies {
        &&& (#[trigger] pieces[i]).modified_end_char == pieces[i + 1].modified_begin_char
        &&& pieces[i].modified_end_byte == pieces[i + 1].modified_begin_byte
        &&& pieces[i].original_end_char == pieces[i + 1].original_begin_char
        &&& pieces[i].modified_end_byte == pieces[i].modified_begin_byte + infos[i].head_word_length
    } by {
        lemma_piece_bounds(node, input, infos, i);
        lemma_piece_bounds(node, input, infos, i + 1);
        assert(piece_char_end(node, input, infos, i) == piece_char_begin(node, input, infos, i + 1));
    }
    lemma_concat_prefix(node, input, infos, ids, n);
    assert(pieces.take(n) =~= pieces);
}

/// Every identifier that either operand matches is matched by their union, which therefore
/// matches at least as many parts of speech as each operand.
pub proof fn law_union_covers(a: SudachiPosMatcher, b: SudachiPosMatcher, u: SudachiPosMatcher)
    requires
        u.matcher@ == a.matcher@.union(b.matcher@),
    ensures
        a.matcher@.subset_of(u.matcher@),
        b.matcher@.subset_of(u.matcher@),
        u.matcher@.len() >= a.matcher@.len(),
        u.matcher@.len() >= b.matcher@.len(),
{
    a.matcher.lemma_finite();
    b.matcher.lemma_finite();
    vstd::set_lib::lemma_len_union_ind(a.matcher@, b.matcher@);
}

/// The intersection of two matchers matches only what both match, so no more than either.
pub proof fn law_intersection_within(
    a: SudachiPosMatcher,
    b: SudachiPosMatcher,
    i: SudachiPosMatcher,
)
    requires
        i.matcher@ == a.matcher@.intersect(b.matcher@),
    ensures
        i.matcher@.subset_of(a.matcher@),
        i.matcher@.subset_of(b.matcher@),
        i.matcher@.len() <= a.matcher@.len(),
        i.matcher@.len() <= b.matcher@.len(),
{
    a.matcher.lemma_finite();
    b.matcher.lemma_finite();
    vstd::set_lib::lemma_len_subset(i.matcher@, a.matcher@);
    vstd::set_lib::lemma_len_subset(i.matcher@, b.matcher@);
}

/// Subtracting a matcher keeps only what the first operand matches, so no more than it, and
/// nothing that the second one matches.
pub proof fn law_subtract_within(a: SudachiPosMatcher, b: SudachiPosMatcher, d: SudachiPosMatcher)
    requires
        d.matcher@ == a.matcher@.difference(b.matcher@),
    ensures
        d.matcher@.subset_of(a.matcher@),
        d.matcher@.disjoint(b.matcher@),
        d.matcher@.len() <= a.matcher@.len(),
{
    a.matcher.lemma_finite();
    vstd::set_lib::lemma_len_subset(d.matcher@, a.matcher@);
}

/// The inverted matcher matches a part of speech of the dictionary exactly when the original
/// matcher does not.
pub proof fn law_inverted_complements(m: SudachiPosMatcher, inv: SudachiPosMatcher, pos_id: u16)
    requires
        inv.matcher@ == index_ids(m.dictionary.part_of_speech@.len() as int).difference(m.matcher@),
        (pos_id as int) < m.dictionary.part_of_speech@.len(),
    ensures
        inv.matcher@.contains(pos_id) == !m.matcher@.contains(pos_id),
{
    assert(((pos_id as int) as u16) == pos_id);
    assert(index_ids(m.dictionary.part_of_speech@.len() as int).contains(pos_id));
}

/// Inverting twice gives back what the matcher matches among the dictionary's parts of speech.
pub proof fn law_inverted_twice(m: SudachiPosMatcher, inv: SudachiPosMatcher, back: SudachiPosMatcher)
    requires
        inv.matcher@ == index_ids(m.dictionary.part_of_speech@.len() as int).difference(m.matcher@),
        back.matcher@ == index_ids(m.dictionary.part_of_speech@.len() as int).difference(inv.matcher@),
    ensures
        back.matcher@ == index_ids(m.dictionary.part_of_speech@.len() as int).intersect(m.matcher@),
{
    assert(back.matcher@ =~= index_ids(m.dictionary.part_of_speech@.len() as int).intersect(
        m.matcher@,
    ));
}

/// Whatever fields are asked for, a tokenizer loads the surface, the head-word length and the
/// part of speech, every field it was asked for and every field that its projection needs;
/// asking for no particular fields loads them all; and a unit split that is neither asked for
/// nor needed by the projection is not loaded.
pub proof fn law_subset_loads_basics(
    fields: Option<Seq<SudachiInfoField>>,
    projection_subset: InfoSubset,
)
    ensures
        spec_subset_from_fields(fields, projection_subset).spec_contains(
            InfoSubset::spec_always_loaded(),
        ),
        spec_subset_from_fields(fields, projection_subset).spec_contains(projection_subset),
        fields matches Some(fs) ==> forall|k: int|
            0 <= k < fs.len() ==> spec_subset_from_fields(fields, projection_subset).spec_contains(
                #[trigger] InfoSubset::spec_from_field(fs[k]),
            ),
        fields is None ==> spec_subset_from_fields(fields, projection_subset) == InfoSubset::uniform(
            true,
        ),
        fields matches Some(fs) ==> (!fs.contains(SudachiInfoField::SplitA)
            && !projection_subset.split_a ==> !spec_subset_from_fields(
            fields,
            projection_subset,
        ).split_a),
        fields matches Some(fs) ==> (!fs.contains(SudachiInfoField::SplitB)
            && !projection_subset.split_b ==> !spec_subset_from_fields(
            fields,
            projection_subset,
        ).split_b),
{
    if let Some(fs) = fields {
        assert forall|k: int| 0 <= k < fs.len() implies spec_subset_from_fields(
            fields,
            projection_subset,
        ).spec_contains(#[trigger] InfoSubset::spec_from_field(fs[k])) by {
            assert(fs.contains(fs[k]));
        }
    }
}

/// A presented word information with a non-empty surface has non-empty normalized,
/// dictionary and reading forms.
pub proof fn law_presented_forms_nonempty(w: SudachiWordInfo, info: WordInfoView)
    requires
        w.presents(info),
        info.surface.len() > 0,
    ensures
        w.normalized_form@.len() > 0,
        w.dictionary_form@.len() > 0,
        w.reading_form@.len() > 0,
{
}

/// The surface that a projection presents is decided by the morpheme's part of speech:
/// the projections that keep conjugating words keep the raw surface of verbs, adjectives and
/// auxiliary verbs and give the dictionary (or normalized) form of others, and the projection
/// of normalized nouns gives the normalized form where the conjugation form is `*` and the
/// raw surface elsewhere.  (A grammar of more than 65536 parts of speech is left out: there a
/// 16-bit identifier names several of them.)
pub proof fn law_project_by_part_of_speech(
    state: DictionaryState,
    projection: SudachiProjection,
    node: MorphemeNodeView,
)
    requires
        state.matchers_consistent(),
        (node.word_info.pos_id as int) < state.part_of_speech@.len(),
        state.part_of_speech@.len() <= 65536,
    ensures
        ({
            let p = state.part_of_speech@[node.word_info.pos_id as int];
            let info = node.word_info;
            projected(state, projection, node) == match projection {
                SudachiProjection::Surface => node.raw_surface,
                SudachiProjection::Normalized => info.shown_normalized_form(),
                SudachiProjection::Reading => info.shown_reading_form(),
                SudachiProjection::Dictionary => info.shown_dictionary_form(),
                SudachiProjection::DictionaryAndSurface => if conjugating_level(p) {
                    node.raw_surface
                } else {
                    info.shown_dictionary_form()
                },
                SudachiProjection::NormalizedAndSurface => if conjugating_level(p) {
                    node.raw_surface
                } else {
                    info.shown_normalized_form()
                },
                SudachiProjection::NormalizedNouns => if no_conjugation_level(p) {
                    info.shown_normalized_form()
                } else {
                    node.raw_surface
                },
            }
        }),
{
    let id = node.word_info.pos_id;
    let pos = state.part_of_speech@;
    assert((id as int) as u16 == id);
    assert forall|idx: int| 0 <= idx < pos.len() && #[trigger] (idx as u16) == id implies idx
        == id as int by {
    }
    if state.conjugating_matcher@.contains(id) {
        let idx = choose|idx: int|
            0 <= idx < pos.len() && idx as u16 == id && conjugating_level(#[trigger] pos[idx]);
        assert(idx == id as int);
    }
    if conjugating_level(pos[id as int]) {
        assert(listed_ids(pos, true).contains(id));
    }
    if state.normalized_nouns_matcher@.contains(id) {
        let idx = choose|idx: int|
            0 <= idx < pos.len() && idx as u16 == id && no_conjugation_level(#[trigger] pos[idx]);
        assert(idx == id as int);
    }
    if no_conjugation_level(pos[id as int]) {
        assert(listed_ids(pos, false).contains(id));
    }
}

/// The part-of-speech identifiers below `n`.
pub open spec fn ids_below(n: int) -> Set<u16> {
    Set::new(|id: u16| (id as int) < n)
}

/// Among the first `k` parts of speech, the entries that `m` lists are as many as the
/// identifiers of `m` below `k`; and there are `k` identifiers below `k`.
proof fn lemma_listed_prefix(pos: Seq<SudachiPartOfSpeech>, m: Set<u16>, k: int)
    requires
        0 <= k <= 65536,
    ensures
        ids_below(k).finite(),
        ids_below(k).len() == k,
        m.intersect(ids_below(k)).finite(),
        listed_entries(pos, m, k).len() == m.intersect(ids_below(k)).len(),
    decreases k,
{
    if k == 0 {
        assert(ids_below(0) =~= Set::<u16>::empty());
        assert(m.intersect(ids_below(0)) =~= Set::<u16>::empty());
    } else {
        lemma_listed_prefix(pos, m, k - 1);
        let id = (k - 1) as u16;
        assert(id as int == k - 1);
        assert(ids_below(k) =~= ids_below(k - 1).insert(id));
        assert(!ids_below(k - 1).contains(id));
        if m.contains(id) {
            assert(m.intersect(ids_below(k)) =~= m.intersect(ids_below(k - 1)).insert(id));
        } else {
            assert(m.intersect(ids_below(k)) =~= m.intersect(ids_below(k - 1)));
        }
    }
}

/// Every matcher that the library builds matches only parts of speech that the dictionary
/// lists: the matcher of a list of patterns, the inverse of a matcher, and the union,
/// intersection and difference of two matchers that do.
pub proof fn law_built_matchers_listed(
    pos: Seq<SudachiPartOfSpeech>,
    patterns: Seq<SudachiPartialPartOfSpeech>,
    a: Set<u16>,
    b: Set<u16>,
)
    requires
        a.subset_of(ids_below(pos.len() as int)),
        b.subset_of(ids_below(pos.len() as int)),
    ensures
        matched_ids(pos, patterns).subset_of(ids_below(pos.len() as int)),
        index_ids(pos.len() as int).difference(a).subset_of(ids_below(pos.len() as int)),
        a.union(b).subset_of(ids_below(pos.len() as int)),
        a.intersect(b).subset_of(ids_below(pos.len() as int)),
        a.difference(b).subset_of(ids_below(pos.len() as int)),
{
    assert forall|idx: int| 0 <= idx < pos.len() implies ((#[trigger] (idx as u16)) as int)
        < pos.len() by {
        if idx < 65536 {
            assert((idx as u16) as int == idx);
        }
    }
}

/// A matcher whose parts of speech the dictionary lists matches as many of them as it has
/// entries, and its inverse matches the rest: the list's length less its count.  (A grammar of
/// more than 65536 parts of speech is left out: there a 16-bit identifier names several.)
pub proof fn law_matcher_count(m: SudachiPosMatcher)
    requires
        m.dictionary.part_of_speech@.len() <= 65536,
        m.matcher@.subset_of(ids_below(m.dictionary.part_of_speech@.len() as int)),
    ensures
        m.matcher@.finite(),
        m.matcher@.len() == listed_entries(
            m.dictionary.part_of_speech@,
            m.matcher@,
            m.dictionary.part_of_speech@.len() as int,
        ).len(),
        index_ids(m.dictionary.part_of_speech@.len() as int).difference(m.matcher@).len()
            == m.dictionary.part_of_speech@.len() - m.matcher@.len(),
{
    let pos = m.dictionary.part_of_speech@;
    let n = pos.len() as int;
    let ids = m.matcher@;
    lemma_listed_prefix(pos, ids, n);
    assert(ids.intersect(ids_below(n)) =~= ids);
    assert forall|id: u16| #[trigger] index_ids(n).contains(id) == ids_below(n).contains(id) by {
        if ids_below(n).contains(id) {
            assert(((id as int) as u16) == id);
        }
        if index_ids(n).contains(id) {
            let idx = choose|idx: int| 0 <= idx < n && #[trigger] (idx as u16) == id;
            assert((idx as u16) as int == idx);
        }
    }
    assert(index_ids(n) =~= ids_below(n));
    vstd::set_lib::lemma_set_difference_len(ids_below(n), ids);
    assert(ids_below(n).intersect(ids) =~= ids);
}

/// The raw surfaces of the first `k` morphemes, one after the other, are the original text up
/// to where the `k`-th ends, when the morphemes follow one another from the text's start.
proof fn lemma_surfaces_prefix(text: Seq<char>, views: Seq<MorphemeNodeView>, k: int)
    requires
        1 <= k <= views.len(),
        views[0].original_begin_char == 0,
        forall|i: int|
            0 <= i < views.len() ==> (#[trigger] views[i]).original_begin_char
                <= views[i].original_end_char <= text.len() && views[i].raw_surface
                == text.subrange(views[i].original_begin_char as int, views[i].original_end_char as int),
        forall|i: int|
            0 <= i < views.len() - 1 ==> (#[trigger] views[i]).original_end_char == views[i
                + 1].original_begin_char,
    ensures
        concat_surfaces(views.take(k)) == text.subrange(0, views[k - 1].original_end_char as int),
    decreases k,
{
    let v = views[k - 1];
    assert(views.take(k).drop_last() =~= views.take(k - 1));
    assert(views.take(k).last() == v);
    if k == 1 {
        assert(views.take(0) =~= Seq::<MorphemeNodeView>::empty());
        assert(concat_surfaces(views.take(0)) =~= Seq::<char>::empty());
        assert(concat_surfaces(views.take(1)) =~= text.subrange(0, v.original_end_char as int));
    } else {
        lemma_surfaces_prefix(text, views, k - 1);
        let w = views[k - 2];
        assert(w.original_end_char == v.original_begin_char);
        assert(text.subrange(0, w.original_end_char as int) + text.subrange(
            v.original_begin_char as int,
            v.original_end_char as int,
        ) =~= text.subrange(0, v.original_end_char as int));
    }
}

/// Where the analyser's morphemes follow one another over the whole normalised text (the
/// first begins at its start, each of the others where the previous one ends, the last at its
/// end) and the index table maps the normalised text's start and end to the original text's,
/// the morphemes of the list tile the original text: the first begins at character 0, each
/// of the others where the previous one ends, the last at the text's end, and their raw
/// surfaces, one after the other, are the original text.
pub proof fn law_contiguous_analysis_tiles_text(
    input: InputText,
    nodes: Seq<ResultNode>,
    views: Seq<MorphemeNodeView>,
)
    requires
        nodes.len() > 0,
        views.len() == nodes.len(),
        results_fit(input, nodes),
        forall|i: int|
            0 <= i < views.len() ==> #[trigger] views[i] == node_view(
                input,
                nodes[i].word_info@,
                nodes[i].word_id,
                nodes[i].total_cost,
                nodes[i].begin,
                nodes[i].end,
                nodes[i].begin_bytes,
                nodes[i].end_bytes,
            ),
        nodes[0].begin == 0,
        forall|i: int| 0 <= i < nodes.len() - 1 ==> (#[trigger] nodes[i]).end == nodes[i + 1].begin,
        nodes[nodes.len() - 1].end == input.orig_char_table().len() - 1,
        input.orig_char_table()[0] == 0,
        input.orig_char_table()[input.orig_char_table().len() - 1] == input.original_chars().len(),
    ensures
        views[0].original_begin_char == 0,
        forall|i: int|
            0 <= i < views.len() - 1 ==> (#[trigger] views[i]).original_end_char == views[i
                + 1].original_begin_char,
        views[views.len() - 1].original_end_char == input.original_chars().len(),
        concat_surfaces(views) == input.original_chars(),
{
    let text = input.original_chars();
    let n = views.len() as int;
    assert forall|i: int| 0 <= i < n implies (#[trigger] views[i]).original_begin_char
        <= views[i].original_end_char <= text.len() && views[i].raw_surface == text.subrange(
        views[i].original_begin_char as int,
        views[i].original_end_char as int,
    ) by {
        assert(node_fits(input, nodes[i].begin as int, nodes[i].end as int));
    }
    assert forall|i: int| 0 <= i < n - 1 implies (#[trigger] views[i]).original_end_char
        == views[i + 1].original_begin_char by {
        assert(nodes[i].end == nodes[i + 1].begin);
        assert(views[i + 1] == node_view(
            input,
            nodes[i + 1].word_info@,
            nodes[i + 1].word_id,
            nodes[i + 1].total_cost,
            nodes[i + 1].begin,
            nodes[i + 1].end,
            nodes[i + 1].begin_bytes,
            nodes[i + 1].end_bytes,
        ));
    }
    assert(views[0] == node_view(
        input,
        nodes[0].word_info@,
        nodes[0].word_id,
        nodes[0].total_cost,
        nodes[0].begin,
        nodes[0].end,
        nodes[0].begin_bytes,
        nodes[0].end_bytes,
    ));
    assert(views[n - 1] == node_view(
        input,
        nodes[n - 1].word_info@,
        nodes[n - 1].word_id,
        nodes[n - 1].total_cost,
        nodes[n - 1].begin,
        nodes[n - 1].end,
        nodes[n - 1].begin_bytes,
        nodes[n - 1].end_bytes,
    ));
    lemma_surfaces_prefix(text, views, n);
    assert(views.take(n) =~= views);
    assert(text.subrange(0, text.len() as int) =~= text);
}

/// An optional level admits a level when it is left open or names exactly that level.
pub open spec fn level_admits(pattern: Option<String>, level: String) -> bool {
    match pattern {
        Some(x) => x@ =~= level@,
        None => true,
    }
}

/// A pattern admits a part of speech exactly when every level that it fixes (the four
/// levels, the conjugation type and the conjugation form) is that part of speech's level: a
/// pattern that fixes its third level, say, never admits a part of speech whose third level
/// differs.  So the matcher of a list of patterns holds an identifier exactly when the part of
/// speech listed there agrees with one of the patterns on every level that it fixes.
pub proof fn law_pattern_fixes_every_level(
    p: SudachiPartialPartOfSpeech,
    pos: SudachiPartOfSpeech,
    list: Seq<SudachiPartOfSpeech>,
    patterns: Seq<SudachiPartialPartOfSpeech>,
    id: u16,
)
    ensures
        p.spec_matches(pos) == (level_admits(p.level1, pos.level1) && level_admits(
            p.level2,
            pos.level2,
        ) && level_admits(p.level3, pos.level3) && level_admits(p.level4, pos.level4)
            && level_admits(p.conjugation_type, pos.conjugation_type) && level_admits(
            p.conjugation_form,
            pos.conjugation_form,
        )),
        matched_ids(list, patterns).contains(id) == exists|k: int, idx: int|
            0 <= k < patterns.len() && 0 <= idx < list.len() && idx as u16 == id
                && #[trigger] level_admits(patterns[k].level1, list[idx].level1) && level_admits(
                patterns[k].level2,
                list[idx].level2,
            ) && level_admits(patterns[k].level3, list[idx].level3) && level_admits(
                patterns[k].level4,
                list[idx].level4,
            ) && level_admits(patterns[k].conjugation_type, list[idx].conjugation_type)
                && level_admits(patterns[k].conjugation_form, list[idx].conjugation_form),
{
    assert forall|q: SudachiPartialPartOfSpeech, t: SudachiPartOfSpeech|
        #[trigger] q.spec_matches(t) == (level_admits(q.level1, t.level1) && level_admits(
            q.level2,
            t.level2,
        ) && level_admits(q.level3, t.level3) && level_admits(q.level4, t.level4)
            && level_admits(q.conjugation_type, t.conjugation_type) && level_admits(
            q.conjugation_form,
            t.conjugation_form,
        )) by {
        let pl = q.pattern_levels();
        let ll = t.levels();
        assert(pl[0] == q.level1 && ll[0] == t.level1@);
        assert(pl[1] == q.level2 && ll[1] == t.level2@);
        assert(pl[2] == q.level3 && ll[2] == t.level3@);
        assert(pl[3] == q.level4 && ll[3] == t.level4@);
        assert(pl[4] == q.conjugation_type && ll[4] == t.conjugation_type@);
        assert(pl[5] == q.conjugation_form && ll[5] == t.conjugation_form@);
        let each = level_admits(q.level1, t.level1) && level_admits(q.level2, t.level2)
            && level_admits(q.level3, t.level3) && level_admits(q.level4, t.level4)
            && level_admits(q.conjugation_type, t.conjugation_type) && level_admits(
            q.conjugation_form,
            t.conjugation_form,
        );
        if q.spec_matches(t) {
            assert(crate::types::spec_matches_partial(pl[0], ll[0]));
            assert(crate::types::spec_matches_partial(pl[1], ll[1]));
            assert(crate::types::spec_matches_partial(pl[2], ll[2]));
            assert(crate::types::spec_matches_partial(pl[3], ll[3]));
            assert(crate::types::spec_matches_partial(pl[4], ll[4]));
            assert(crate::types::spec_matches_partial(pl[5], ll[5]));
        }
        if each {
            assert forall|i: int| 0 <= i < 6 implies #[trigger] crate::types::spec_matches_partial(
                pl[i],
                ll[i],
            ) by {
                if i == 0 {
                } else if i == 1 {
                } else if i == 2 {
                } else if i == 3 {
                } else if i == 4 {
                } else {
                }
            }
        }
    }
    if matched_ids(list, patterns).contains(id) {
        let (k, idx) = choose|k: int, idx: int|
            0 <= k < patterns.len() && 0 <= idx < list.len() && idx as u16 == id
                && #[trigger] patterns[k].spec_matches(#[trigger] list[idx]);
        assert(patterns[k].spec_matches(list[idx]));
    }
    if exists|k: int, idx: int|
        0 <= k < patterns.len() && 0 <= idx < list.len() && idx as u16 == id
            && #[trigger] level_admits(patterns[k].level1, list[idx].level1) && level_admits(
            patterns[k].level2,
            list[idx].level2,
        ) && level_admits(patterns[k].level3, list[idx].level3) && level_admits(
            patterns[k].level4,
            list[idx].level4,
        ) && level_admits(patterns[k].conjugation_type, list[idx].conjugation_type)
            && level_admits(patterns[k].conjugation_form, list[idx].conjugation_form) {
        let (k, idx) = choose|k: int, idx: int|
            0 <= k < patterns.len() && 0 <= idx < list.len() && idx as u16 == id
                && #[trigger] level_admits(patterns[k].level1, list[idx].level1) && level_admits(
                patterns[k].level2,
                list[idx].level2,
            ) && level_admits(patterns[k].level3, list[idx].level3) && level_admits(
                patterns[k].level4,
                list[idx].level4,
            ) && level_admits(patterns[k].conjugation_type, list[idx].conjugation_type)
                && level_admits(patterns[k].conjugation_form, list[idx].conjugation_form);
        assert(patterns[k].spec_matches(list[idx]));
    }
}

/// The normalized form, dictionary form and reading that a word shows are its stored ones,
/// each on its own, and the surface only where the stored one is empty; the projections onto
/// them present the same.
pub proof fn law_shown_forms(state: DictionaryState, node: MorphemeNodeView)
    ensures
        ({
            let info = node.word_info;
            &&& info.normalized_form.len() > 0 ==> info.shown_normalized_form()
                == info.normalized_form
            &&& info.normalized_form.len() == 0 ==> info.shown_normalized_form() == info.surface
            &&& info.dictionary_form.len() > 0 ==> info.shown_dictionary_form()
                == info.dictionary_form
            &&& info.dictionary_form.len() == 0 ==> info.shown_dictionary_form() == info.surface
            &&& info.reading_form.len() > 0 ==> info.shown_reading_form() == info.reading_form
            &&& info.reading_form.len() == 0 ==> info.shown_reading_form() == info.surface
            &&& projected(state, SudachiProjection::Normalized, node)
                == info.shown_normalized_form()
            &&& projected(state, SudachiProjection::Dictionary, node)
                == info.shown_dictionary_form()
            &&& projected(state, SudachiProjection::Reading, node) == info.shown_reading_form()
            &&& projected(state, SudachiProjection::Surface, node) == node.raw_surface
        }),
{
}

/// A split in mode C yields no unit, whatever the word and whatever fields were loaded (so a
/// split that keeps single morphemes gives back the morpheme itself); modes A and B yield the
/// word's A and B units.
pub proof fn law_split_units_by_mode(info: WordInfoView, subset: InfoSubset)
    ensures
        split_unit_ids(info, SudachiSplitMode::C).len() == 0,
        split_allowed(subset, SudachiSplitMode::C),
        split_unit_ids(info, SudachiSplitMode::A) == info.a_unit_split,
        split_unit_ids(info, SudachiSplitMode::B) == info.b_unit_split,
        split_allowed(subset, SudachiSplitMode::A) == subset.split_a,
        split_allowed(subset, SudachiSplitMode::B) == subset.split_b,
{
}

/// The first level of a part of speech as the grammar lists it, or the empty string.
pub open spec fn first_level(pos: Seq<String>) -> Seq<char> {
    if pos.len() > 0 {
        pos[0]@
    } else {
        Seq::empty()
    }
}

/// The verbs, adjectives and auxiliary verbs are exactly the parts of speech whose surface the
/// surface-keeping projections keep: the conjugating matcher of a grammar holds the identifier
/// of an entry whose first level is 動詞, 形容詞 or 助動詞 and of no other entry; and for a
/// morpheme of such a part of speech the dictionary-and-surface and normalized-and-surface
/// projections present its raw surface.  (Grammars of more than 65536 parts of speech are
/// left out: there a 16-bit identifier names several.)
pub proof fn law_conjugating_parts_keep_surface(
    pos_list: Seq<Vec<String>>,
    idx: int,
    state: DictionaryState,
    node: MorphemeNodeView,
)
    requires
        pos_list.len() <= 65536,
        0 <= idx < pos_list.len(),
        state.matchers_consistent(),
        state.part_of_speech@.len() <= 65536,
        (node.word_info.pos_id as int) < state.part_of_speech@.len(),
    ensures
        precomputed_ids(pos_list, true).contains(idx as u16) == (first_level(pos_list[idx]@)
            == "動詞"@ || first_level(pos_list[idx]@) == "形容詞"@ || first_level(pos_list[idx]@)
            == "助動詞"@),
        ({
            let level1 = state.part_of_speech@[node.word_info.pos_id as int].level1@;
            (level1 == "動詞"@ || level1 == "形容詞"@ || level1 == "助動詞"@) ==> {
                &&& state.conjugating_matcher@.contains(node.word_info.pos_id)
                &&& projected(state, SudachiProjection::DictionaryAndSurface, node)
                    == node.raw_surface
                &&& projected(state, SudachiProjection::NormalizedAndSurface, node)
                    == node.raw_surface
            }
        }),
        ({
            let level1 = state.part_of_speech@[node.word_info.pos_id as int].level1@;
            !(level1 == "動詞"@ || level1 == "形容詞"@ || level1 == "助動詞"@) ==> {
                &&& !state.conjugating_matcher@.contains(node.word_info.pos_id)
                &&& projected(state, SudachiProjection::DictionaryAndSurface, node)
                    == node.word_info.shown_dictionary_form()
                &&& projected(state, SudachiProjection::NormalizedAndSurface, node)
                    == node.word_info.shown_normalized_form()
            }
        }),
{
    let id = idx as u16;
    assert(id as int == idx);
    if precomputed_ids(pos_list, true).contains(id) {
        let j = choose|j: int|
            0 <= j < pos_list.len() && j as u16 == id && #[trigger] crate::state::precomputed_pred(
                true,
                pos_list[j]@,
            );
        assert(j as u16 as int == j);
    }
    if first_level(pos_list[idx]@) == "動詞"@ || first_level(pos_list[idx]@) == "形容詞"@
        || first_level(pos_list[idx]@) == "助動詞"@ {
        if pos_list[idx]@.len() == 0 {
            assert(first_level(pos_list[idx]@).len() == 0);
            reveal_strlit("動詞");
            reveal_strlit("形容詞");
            reveal_strlit("助動詞");
        }
        assert(crate::state::precomputed_pred(true, pos_list[idx]@));
    }
    let pid = node.word_info.pos_id;
    let pos = state.part_of_speech@;
    assert((pid as int) as u16 == pid);
    if state.conjugating_matcher@.contains(pid) {
        let j = choose|j: int|
            0 <= j < pos.len() && j as u16 == pid && conjugating_level(#[trigger] pos[j]);
        assert(j as u16 as int == j);
    }
    if conjugating_level(pos[pid as int]) {
        assert(listed_ids(pos, true).contains(pid));
    }
}

/// Each field that a tokenizer can be asked for selects its own flag and no other; and the
/// subset that a list of fields gives loads a field exactly when the list names it or the
/// projection needs it (surface, head-word length and part of speech are always loaded).
pub proof fn law_fields_select_their_flags(
    field: SudachiInfoField,
    fields: Seq<SudachiInfoField>,
    projection_subset: InfoSubset,
)
    ensures
        ({
            let r = InfoSubset::spec_from_field(field);
            &&& r.surface == (field == SudachiInfoField::Surface)
            &&& !r.head_word_length
            &&& r.pos_id == (field == SudachiInfoField::PartOfSpeech)
            &&& r.normalized_form == (field == SudachiInfoField::NormalizedForm)
            &&& r.dic_form_word_id == (field == SudachiInfoField::DictionaryForm)
            &&& r.reading_form == (field == SudachiInfoField::ReadingForm)
            &&& r.word_structure == (field == SudachiInfoField::WordStructure)
            &&& r.split_a == (field == SudachiInfoField::SplitA)
            &&& r.split_b == (field == SudachiInfoField::SplitB)
            &&& r.synonym_group_id == (field == SudachiInfoField::SynonymGroupId)
        }),
        ({
            let r = spec_subset_from_fields(Some(fields), projection_subset);
            &&& r.surface && r.head_word_length && r.pos_id
            &&& r.normalized_form == (fields.contains(SudachiInfoField::NormalizedForm)
                || projection_subset.normalized_form)
            &&& r.dic_form_word_id == (fields.contains(SudachiInfoField::DictionaryForm)
                || projection_subset.dic_form_word_id)
            &&& r.reading_form == (fields.contains(SudachiInfoField::ReadingForm)
                || projection_subset.reading_form)
            &&& r.word_structure == (fields.contains(SudachiInfoField::WordStructure)
                || projection_subset.word_structure)
            &&& r.split_a == (fields.contains(SudachiInfoField::SplitA)
                || projection_subset.split_a)
            &&& r.split_b == (fields.contains(SudachiInfoField::SplitB)
                || projection_subset.split_b)
            &&& r.synonym_group_id == (fields.contains(SudachiInfoField::SynonymGroupId)
                || projection_subset.synonym_group_id)
        }),
{
}

/// The sixth level of a part of speech as the grammar lists it, where it lists one.
pub open spec fn sixth_level(pos: Seq<String>) -> Option<Seq<char>> {
    if pos.len() > 5 {
        Some(pos[5]@)
    } else {
        None
    }
}

/// The parts of speech whose conjugation form is `*` are exactly those whose normalized form
/// the normalized-nouns projection presents: its matcher holds the identifier of an entry whose
/// sixth level is `*` and of no other entry; a morpheme of such a part of speech is presented
/// by its normalized form, any other by its raw surface.  (Grammars of more than 65536 parts
/// of speech are left out: there a 16-bit identifier names several.)
pub proof fn law_uninflected_parts_present_normalized_form(
    pos_list: Seq<Vec<String>>,
    idx: int,
    state: DictionaryState,
    node: MorphemeNodeView,
)
    requires
        pos_list.len() <= 65536,
        0 <= idx < pos_list.len(),
        state.matchers_consistent(),
        state.part_of_speech@.len() <= 65536,
        (node.word_info.pos_id as int) < state.part_of_speech@.len(),
    ensures
        precomputed_ids(pos_list, false).contains(idx as u16) == (sixth_level(pos_list[idx]@)
            == Some("*"@)),
        state.normalized_nouns_matcher@.contains(node.word_info.pos_id) == (
        state.part_of_speech@[node.word_info.pos_id as int].conjugation_form@ == "*"@),
        projected(state, SudachiProjection::NormalizedNouns, node) == if state.part_of_speech@[
            node.word_info.pos_id as int].conjugation_form@ == "*"@ {
            node.word_info.shown_normalized_form()
        } else {
            node.raw_surface
        },
{
    let id = idx as u16;
    assert(id as int == idx);
    if precomputed_ids(pos_list, false).contains(id) {
        let j = choose|j: int|
            0 <= j < pos_list.len() && j as u16 == id && #[trigger] crate::state::precomputed_pred(
                false,
                pos_list[j]@,
            );
        assert(j as u16 as int == j);
    }
    if sixth_level(pos_list[idx]@) == Some("*"@) {
        assert(crate::state::precomputed_pred(false, pos_list[idx]@));
    }
    let pid = node.word_info.pos_id;
    let pos = state.part_of_speech@;
    assert((pid as int) as u16 == pid);
    if state.normalized_nouns_matcher@.contains(pid) {
        let j = choose|j: int|
            0 <= j < pos.len() && j as u16 == pid && no_conjugation_level(#[trigger] pos[j]);
        assert(j as u16 as int == j);
    }
    if no_conjugation_level(pos[pid as int]) {
        assert(listed_ids(pos, false).contains(pid));
    }
}

} // verus!
