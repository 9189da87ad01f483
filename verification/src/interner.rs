//! The string table: every name and every string of a program is stored
//! once and named by its symbol, the place where it stands in the table.
//!
//! The table starts out holding the keywords of the language, so that the
//! symbol of a lexeme tells whether it is a keyword, followed by the three
//! names that the language itself binds or looks up.

use vstd::prelude::*;
use vstd::string::*;
use crate::tables::{string_index_contents, string_index_get, string_index_insert, string_index_new, StringIndex};
use crate::token::TokenType;

verus! {

/// How many keywords the language has; their symbols are the numbers below.
pub const KEYWORDS: usize = 16;

/// The symbol of `init`, the name of initializers.
pub const SYM_INIT: usize = 16;

/// The symbol of `this`.
pub const SYM_THIS: usize = 12;

/// The symbol of `super`.
pub const SYM_SUPER: usize = 11;

/// The symbol of `clock`, the native function.
pub const SYM_CLOCK: usize = 17;

/// How many strings a fresh table holds.
pub const SEEDED: usize = 18;

/// The strings that every table starts with, in the order of their symbols.
pub open spec fn seed() -> Seq<Seq<char>> {
    seq![
        "and"@,
        "class"@,
        "else"@,
        "false"@,
        "for"@,
        "fun"@,
        "if"@,
        "nil"@,
        "or"@,
        "print"@,
        "return"@,
        "super"@,
        "this"@,
        "true"@,
        "var"@,
        "while"@,
        "init"@,
        "clock"@,
    ]
}

/// What tells the strings of the seed apart: the first two characters and
/// the last.
pub open spec fn mark(s: Seq<char>) -> (char, char, char) {
    (s[0], s[1], s[s.len() - 1])
}

/// No string stands in the seed twice.
pub proof fn lemma_seed_distinct()
    ensures
        forall|i: int, j: int|
            0 <= i < j < seed().len() ==> #[trigger] seed()[i] != #[trigger] seed()[j],
{
    reveal_strlit("and");
    reveal_strlit("class");
    reveal_strlit("else");
    reveal_strlit("false");
    reveal_strlit("for");
    reveal_strlit("fun");
    reveal_strlit("if");
    reveal_strlit("nil");
    reveal_strlit("or");
    reveal_strlit("print");
    reveal_strlit("return");
    reveal_strlit("super");
    reveal_strlit("this");
    reveal_strlit("true");
    reveal_strlit("var");
    reveal_strlit("while");
    reveal_strlit("init");
    reveal_strlit("clock");
    let marks = seq![
        ('a', 'n', 'd'),
        ('c', 'l', 's'),
        ('e', 'l', 'e'),
        ('f', 'a', 'e'),
        ('f', 'o', 'r'),
        ('f', 'u', 'n'),
        ('i', 'f', 'f'),
        ('n', 'i', 'l'),
        ('o', 'r', 'r'),
        ('p', 'r', 't'),
        ('r', 'e', 'n'),
        ('s', 'u', 'r'),
        ('t', 'h', 's'),
        ('t', 'r', 'e'),
        ('v', 'a', 'r'),
        ('w', 'h', 'e'),
        ('i', 'n', 't'),
        ('c', 'l', 'k'),
    ];
    assert forall|i: int| 0 <= i < seed().len() implies mark(#[trigger] seed()[i]) == marks[i] by {}
    assert forall|i: int, j: int| 0 <= i < j < seed().len() implies #[trigger] seed()[i]
        != #[trigger] seed()[j] by {
        assert(mark(seed()[i]) == marks[i]);
        assert(mark(seed()[j]) == marks[j]);
        assert(marks[i] != marks[j]);
    }
}

/// The token type that a symbol stands for: a keyword for the first
/// symbols of the table, an identifier for all others.
pub open spec fn symbol_type(symbol: usize) -> TokenType {
    if symbol == 0 {
        TokenType::KwAnd
    } else if symbol == 1 {
        TokenType::KwClass
    } else if symbol == 2 {
        TokenType::KwElse
    } else if symbol == 3 {
        TokenType::KwFalse
    } else if symbol == 4 {
        TokenType::KwFor
    } else if symbol == 5 {
        TokenType::KwFun
    } else if symbol == 6 {
        TokenType::KwIf
    } else if symbol == 7 {
        TokenType::KwNil
    } else if symbol == 8 {
        TokenType::KwOr
    } else if symbol == 9 {
        TokenType::KwPrint
    } else if symbol == 10 {
        TokenType::KwReturn
    } else if symbol == 11 {
        TokenType::KwSuper
    } else if symbol == 12 {
        TokenType::KwThis
    } else if symbol == 13 {
        TokenType::KwTrue
    } else if symbol == 14 {
        TokenType::KwVar
    } else if symbol == 15 {
        TokenType::KwWhile
    } else {
        TokenType::Identifier
    }
}

pub fn keyword_or_identifier(symbol: usize) -> (r: TokenType)
    ensures
        r == symbol_type(symbol),
{
    if symbol == 0 {
        TokenType::KwAnd
    } else if symbol == 1 {
        TokenType::KwClass
    } else if symbol == 2 {
        TokenType::KwElse
    } else if symbol == 3 {
        TokenType::KwFalse
    } else if symbol == 4 {
        TokenType::KwFor
    } else if symbol == 5 {
        TokenType::KwFun
    } else if symbol == 6 {
        TokenType::KwIf
    } else if symbol == 7 {
        TokenType::KwNil
    } else if symbol == 8 {
        TokenType::KwOr
    } else if symbol == 9 {
        TokenType::KwPrint
    } else if symbol == 10 {
        TokenType::KwReturn
    } else if symbol == 11 {
        TokenType::KwSuper
    } else if symbol == 12 {
        TokenType::KwThis
    } else if symbol == 13 {
        TokenType::KwTrue
    } else if symbol == 14 {
        TokenType::KwVar
    } else if symbol == 15 {
        TokenType::KwWhile
    } else {
        TokenType::Identifier
    }
}

/// The table starts with the seed.
pub open spec fn seeded(table: Seq<Seq<char>>) -> bool {
    &&& seed().len() <= table.len()
    &&& forall|i: int| 0 <= i < seed().len() ==> #[trigger] table[i] == seed()[i]
}

/// The symbol that a string has in a table, or will get when it is added:
/// its place, or the place after the last.
pub open spec fn symbol_of(table: Seq<Seq<char>>, s: Seq<char>) -> int {
    if table.contains(s) {
        table.index_of(s)
    } else {
        table.len() as int
    }
}

/// The table once the string has a symbol: unchanged if it had one,
/// else longer by that string.
pub open spec fn with_symbol(table: Seq<Seq<char>>, s: Seq<char>) -> Seq<Seq<char>> {
    if table.contains(s) {
        table
    } else {
        table.push(s)
    }
}

pub struct Interner {
    pub strings: Vec<String>,
    pub index: StringIndex,
}

impl View for Interner {
    type V = Seq<Seq<char>>;

    /// The strings of the table, each at its symbol.
    open spec fn view(&self) -> Seq<Seq<char>> {
        Seq::new(self.strings@.len(), |i: int| self.strings@[i]@)
    }
}

impl Interner {
    /// The index finds every string of the table and nothing else, hence no
    /// string stands in the table twice.
    pub open spec fn indexed(&self) -> bool {
        &&& forall|i: int|
            0 <= i < self@.len() ==> {
                &&& string_index_contents(self.index).contains_key(#[trigger] self@[i])
                &&& string_index_contents(self.index)[self@[i]] == i
            }
        &&& forall|k: Seq<char>| #[trigger]
            string_index_contents(self.index).contains_key(k) ==> {
                &&& string_index_contents(self.index)[k] < self@.len()
                &&& self@[string_index_contents(self.index)[k] as int] == k
            }
    }

    /// The table is indexed and starts with the seed.
    pub open spec fn wf(&self) -> bool {
        &&& self.indexed()
        &&& seeded(self@)
    }

    /// No string stands twice in a well-formed table.
    pub proof fn lemma_distinct(&self, i: int, j: int)
        requires
            self.wf(),
            0 <= i < self@.len(),
            0 <= j < self@.len(),
            self@[i] == self@[j],
        ensures
            i == j,
    {
    }

    /// The strings of the seed keep their symbols: in every table, a
    /// keyword has the symbol that tells its token type, and `init`, `this`,
    /// `super` and `clock` have theirs.
    pub proof fn lemma_seed_symbol(&self, k: int)
        requires
            self.wf(),
            0 <= k < seed().len(),
        ensures
            symbol_of(self@, seed()[k]) == k,
            with_symbol(self@, seed()[k]) == self@,
    {
        assert(self@[k] == seed()[k]);
        assert(self@.contains(seed()[k]));
        self.lemma_distinct(k, self@.index_of(seed()[k]));
    }

    fn push_fresh(&mut self, s: &str)
        requires
            old(self).indexed(),
            forall|i: int| 0 <= i < old(self)@.len() ==> #[trigger] old(self)@[i] != s@,
        ensures
            final(self).indexed(),
            final(self)@ == old(self)@.push(s@),
    {
        let id = self.strings.len();
        proof {
            if string_index_contents(self.index).contains_key(s@) {
                let at = string_index_contents(self.index)[s@] as int;
                assert(self@[at] == s@);
            }
        }
        self.strings.push(String::from_str(s));
        string_index_insert(&mut self.index, String::from_str(s), id);
        assert(self@ =~= old(self)@.push(s@));
        assert forall|i: int| 0 <= i < self@.len() implies {
            &&& string_index_contents(self.index).contains_key(#[trigger] self@[i])
            &&& string_index_contents(self.index)[self@[i]] == i
        } by {
            if i < old(self)@.len() {
                assert(self@[i] == old(self)@[i]);
            }
        }
        assert forall|k: Seq<char>| #[trigger]
            string_index_contents(self.index).contains_key(k) implies {
            &&& string_index_contents(self.index)[k] < self@.len()
            &&& self@[string_index_contents(self.index)[k] as int] == k
        } by {
            if k != s@ {
                assert(string_index_contents(old(self).index).contains_key(k));
                let at = string_index_contents(old(self).index)[k] as int;
                assert(self@[at] == old(self)@[at]);
            }
        }
    }

    /// Adds the string of the seed that comes next.
    fn push_seed(&mut self, s: &str, Ghost(k): Ghost<int>)
        requires
            old(self).indexed(),
            0 <= k < seed().len(),
            old(self)@ == seed().take(k),
            s@ == seed()[k],
        ensures
            final(self).indexed(),
            final(self)@ == seed().take(k + 1),
    {
        proof {
            lemma_seed_distinct();
        }
        self.push_fresh(s);
        assert(self@ =~= seed().take(k + 1));
    }

    /// A table that holds the seed.
    pub fn new() -> (r: Interner)
        ensures
            r.wf(),
            r@ == seed(),
    {
        let mut r = Interner { strings: Vec::new(), index: string_index_new() };
        assert(r@ =~= seed().take(0));
        r.push_seed("and", Ghost(0));
        r.push_seed("class", Ghost(1));
        r.push_seed("else", Ghost(2));
        r.push_seed("false", Ghost(3));
        r.push_seed("for", Ghost(4));
        r.push_seed("fun", Ghost(5));
        r.push_seed("if", Ghost(6));
        r.push_seed("nil", Ghost(7));
        r.push_seed("or", Ghost(8));
        r.push_seed("print", Ghost(9));
        r.push_seed("return", Ghost(10));
        r.push_seed("super", Ghost(11));
        r.push_seed("this", Ghost(12));
        r.push_seed("true", Ghost(13));
        r.push_seed("var", Ghost(14));
        r.push_seed("while", Ghost(15));
        r.push_seed("init", Ghost(16));
        r.push_seed("clock", Ghost(17));
        assert(r@ =~= seed());
        r
    }

    /// How many strings the table holds.
    pub fn len(&self) -> (n: usize)
        ensures
            n == self@.len(),
    {
        self.strings.len()
    }

    /// The symbol of the string, which is added to the table if it has none.
    pub fn intern(&mut self, s: &str) -> (id: usize)
        requires
            old(self).wf(),
        ensures
            final(self).wf(),
            final(self)@ == with_symbol(old(self)@, s@),
            id == symbol_of(old(self)@, s@),
            id < final(self)@.len(),
            final(self)@[id as int] == s@,
    {
        match string_index_get(&self.index, s) {
            Some(id) => {
                proof {
                    assert(self@[id as int] == s@);
                    assert(self@.contains(s@));
                    self.lemma_distinct(id as int, self@.index_of(s@));
                }
                id
            },
            None => {
                proof {
                    if self@.contains(s@) {
                        let at = self@.index_of(s@);
                        assert(string_index_contents(self.index).contains_key(self@[at]));
                    }
                }
                let id = self.strings.len();
                assert forall|i: int| 0 <= i < self@.len() implies #[trigger] self@[i] != s@ by {
                    if self@[i] == s@ {
                        assert(self@.contains(s@));
                    }
                }
                self.push_fresh(s);
                id
            },
        }
    }

    /// The string that a symbol names.
    pub fn text(&self, symbol: usize) -> (r: &str)
        requires
            symbol < self@.len(),
        ensures
            r@ == self@[symbol as int],
    {
        self.strings[symbol].as_str()
    }
}

/// Interning never changes the strings that are in the table already, adds
/// one string at most, and the symbol that it gives names the string.
pub proof fn lemma_with_symbol(table: Seq<Seq<char>>, s: Seq<char>)
    ensures
        table.len() <= with_symbol(table, s).len() <= table.len() + 1,
        forall|i: int| 0 <= i < table.len() ==> (#[trigger] with_symbol(table, s)[i]) == table[i],
        0 <= symbol_of(table, s) < with_symbol(table, s).len(),
        with_symbol(table, s)[symbol_of(table, s)] == s,
{
}

} // verus!
