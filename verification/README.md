# sudachi-swift

The Swift bindings of the Sudachi Japanese morphological analyser, with their
logic verified in Verus.

- `src/` is the verified library. It holds the values that the bindings expose
  as plain data and proves what the bindings do with them:
  - `types`: split modes, projections, word-information fields and the subset of
    fields a tokenizer loads, parts of speech and part-of-speech patterns, word
    information and its presentation;
  - `matcher`: part-of-speech matchers (sets of identifiers) and their set algebra;
  - `input`: the analysed text with the tables that map the analyser's normalised
    text back to the original;
  - `state`: what is kept of a dictionary, single morphemes, morpheme lists,
    surface projection, splitting a morpheme into finer units, lookups and
    part-of-speech matching;
  - `objects`: the objects of the Swift API (dictionary, tokenizer, morpheme list,
    morpheme, part-of-speech matcher);
  - `wrapped`: the values of the earlier, flat interface;
  - `laws`: properties that relate several operations (a split tiles the morpheme,
    the set algebra of matchers, inversion, the fields a tokenizer always loads).
- `app/` is the uniffi layer: it loads dictionaries, runs the analyser, converts
  its results into the library's values and exports the objects to Swift.
- `tests/` exercises the library on hand-built analyser results.
