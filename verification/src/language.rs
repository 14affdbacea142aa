//! Printer languages and the per-character translation into the printer's
//! 8-bit character set.

use vstd::prelude::*;

verus! {

/// Character set the printer renders with.
#[derive(Clone, Copy, Debug, PartialEq, Eq, Structural)]
pub enum Language {
    /// The printer's power-on character set; text passes through untranslated.
    Default,
    /// Swedish character set: six accented letters occupy ASCII bracket slots.
    Swedish,
}

/// Substitutions of the Swedish character set, as (source, destination) pairs
/// in the order in which they are searched.
pub const SWEDISH: [(char, char); 6] = [
    ('å', '}'),
    ('ä', '{'),
    ('ö', '|'),
    ('Å', ']'),
    ('Ä', '['),
    ('Ö', '\\'),
];

/// Result of searching `table` front to back for the source `c`: the
/// destination of the first pair whose source is `c`, or `c` itself when no
/// pair has that source.
pub open spec fn translated(table: Seq<(char, char)>, c: char) -> char
    decreases table.len(),
{
    if table.len() == 0 {
        c
    } else if table[0].0 == c {
        table[0].1
    } else {
        translated(table.drop_first(), c)
    }
}

/// Whether some pair of `table` has the source `c`.
pub open spec fn has_source(table: Seq<(char, char)>, c: char) -> bool {
    exists|i: int| 0 <= i < table.len() && (#[trigger] table[i]).0 == c
}

/// A character that is the source of no pair comes back unchanged.
pub proof fn lemma_translated_absent(table: Seq<(char, char)>, c: char)
    requires
        !has_source(table, c),
    ensures
        translated(table, c) == c,
    decreases table.len(),
{
    if table.len() > 0 {
        assert(table[0].0 != c);
        let rest = table.drop_first();
        assert forall|i: int| 0 <= i < rest.len() implies (#[trigger] rest[i]).0 != c by {
            assert(rest[i] == table[i + 1]);
        }
        lemma_translated_absent(rest, c);
    }
}

/// The first pair with source `c` decides, whatever follows it in the table.
pub proof fn lemma_translated_first_match(table: Seq<(char, char)>, c: char, i: int)
    requires
        0 <= i < table.len(),
        table[i].0 == c,
        forall|j: int| 0 <= j < i ==> (#[trigger] table[j]).0 != c,
    ensures
        translated(table, c) == table[i].1,
    decreases i,
{
    if i > 0 {
        assert(table[0].0 != c);
        let rest = table.drop_first();
        assert forall|j: int| 0 <= j < i - 1 implies (#[trigger] rest[j]).0 != c by {
            assert(rest[j] == table[j + 1]);
        }
        lemma_translated_first_match(rest, c, i - 1);
    }
}

impl Language {
    /// The byte that selects this language on the wire.
    pub open spec fn wire(self) -> u8 {
        match self {
            Language::Default => 0x00,
            Language::Swedish => 0x05,
        }
    }

    /// The character the printer must receive so that `c` is printed in this
    /// language.
    pub open spec fn encoded(self, c: char) -> char {
        match self {
            Language::Default => c,
            Language::Swedish => translated(SWEDISH@, c),
        }
    }

    /// The Swedish translation, character by character: each of the six
    /// accented letters goes to its slot, every other character to itself.
    pub proof fn lemma_swedish_encoding(c: char)
        ensures
            Language::Swedish.encoded(c) == if c == 'å' {
                '}'
            } else if c == 'ä' {
                '{'
            } else if c == 'ö' {
                '|'
            } else if c == 'Å' {
                ']'
            } else if c == 'Ä' {
                '['
            } else if c == 'Ö' {
                '\\'
            } else {
                c
            },
    {
        reveal_with_fuel(translated, 7);
    }

    /// Translation is total, and it is the identity in the default language
    /// and on every character that the Swedish table does not list.
    pub proof fn lemma_encode_identity(self, c: char)
        requires
            self == Language::Default || !has_source(SWEDISH@, c),
        ensures
            self.encoded(c) == c,
    {
        if self == Language::Swedish {
            lemma_translated_absent(SWEDISH@, c);
        }
    }

    /// Returns the byte that selects this language on the wire.
    pub fn wire_value(&self) -> (id: u8)
        ensures
            id == self.wire(),
    {
        match self {
            Language::Default => 0x00,
            Language::Swedish => 0x05,
        }
    }

    /// Translates one character for this language.
    pub fn encode(&self, c: char) -> (r: char)
        ensures
            r == self.encoded(c),
    {
        match self {
            Language::Default => c,
            Language::Swedish => self.translate(&SWEDISH, c),
        }
    }

    /// Looks `c` up in `table`; the first pair with source `c` decides, and a
    /// character without a pair is returned unchanged.
    pub fn translate(&self, table: &[(char, char)], c: char) -> (r: char)
        ensures
            r == translated(table@, c),
    {
        let mut i: usize = 0;
        assert(table@.skip(0) =~= table@);
        while i < table.len()
            invariant
                i <= table.len(),
                translated(table@, c) == translated(table@.skip(i as int), c),
            decreases table.len() - i,
        {
            let pair = table[i];
            if pair.0 == c {
                return pair.1;
            }
            proof {
                assert(table@.skip(i as int).drop_first() =~= table@.skip(i as int + 1));
            }
            i += 1;
        }
        c
    }
}

} // verus!
