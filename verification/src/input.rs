use vstd::prelude::*;

verus! {

/// The text that a morpheme list was built from, with the index tables that relate the
/// analyser's normalised ("modified") text to the original one.
///
/// `char_of_byte[b]` is the character offset, in the modified text, of byte offset `b` of the
/// modified text; `orig_char_of_char[c]` is the character offset, in the original text, of
/// character offset `c` of the modified text.
pub struct InputText {
    original: String,
    original_len: usize,
    char_of_byte: Vec<usize>,
    orig_char_of_char: Vec<usize>,
}

impl InputText {
    #[verifier::type_invariant]
    spec fn consistent(self) -> bool {
        self.original_len == self.original@.len()
    }

    /// The characters of the original text.
    pub closed spec fn original_chars(&self) -> Seq<char> {
        self.original@
    }

    /// The table from modified byte offsets to modified character offsets.
    pub closed spec fn char_table(&self) -> Seq<usize> {
        self.char_of_byte@
    }

    /// The table from modified character offsets to original character offsets.
    pub closed spec fn orig_char_table(&self) -> Seq<usize> {
        self.orig_char_of_char@
    }

    /// The tables are held in vectors, so their lengths fit in `usize`.
    pub proof fn lemma_table_bounds(&self)
        ensures
            self.char_table().len() <= usize::MAX,
            self.orig_char_table().len() <= usize::MAX,
    {
        assert(self.char_of_byte@.len() == self.char_of_byte.len());
        assert(self.orig_char_of_char@.len() == self.orig_char_of_char.len());
    }

    /// The input text made of `original` and the two index tables.
    pub fn new(original: String, char_of_byte: Vec<usize>, orig_char_of_char: Vec<usize>) -> (r:
        InputText)
        ensures
            r.original_chars() == original@,
            r.char_table() == char_of_byte@,
            r.orig_char_table() == orig_char_of_char@,
    {
        let original_len = original.as_str().unicode_len();
        InputText { original, original_len, char_of_byte, orig_char_of_char }
    }

    /// The modified character offset of modified byte offset `byte`, where the table has one.
    pub fn ch_idx(&self, byte: usize) -> (r: Option<usize>)
        ensures
            r == (if byte < self.char_table().len() {
                Some(self.char_table()[byte as int])
            } else {
                None::<usize>
            }),
    {
        if byte < self.char_of_byte.len() {
            Some(self.char_of_byte[byte])
        } else {
            None
        }
    }

    /// The original character offset of modified character offset `index`, where the table
    /// has one.
    pub fn to_orig_char_idx(&self, index: usize) -> (r: Option<usize>)
        ensures
            r == (if index < self.orig_char_table().len() {
                Some(self.orig_char_table()[index as int])
            } else {
                None::<usize>
            }),
    {
        if index < self.orig_char_of_char.len() {
            Some(self.orig_char_of_char[index])
        } else {
            None
        }
    }

    /// The characters `begin..end` of the original text, where `begin <= end <= length`.
    pub fn original_slice(&self, begin: usize, end: usize) -> (r: Option<String>)
        ensures
            (begin <= end <= self.original_chars().len()) == r.is_some(),
            r matches Some(s) ==> s@ == self.original_chars().subrange(begin as int, end as int),
    {
        proof {
            use_type_invariant(self);
        }
        if begin <= end && end <= self.original_len {
            Some(self.original.as_str().substring_char(begin, end).to_owned())
        } else {
            None
        }
    }
}

} // verus!
