//! The assembler's table of symbols: names declared in a program and the
//! offsets they stand for.
use vstd::prelude::*;

verus! {

/// The kinds of symbol a program can declare.
#[derive(Clone, Copy, PartialEq, Eq, Debug)]
pub enum SymbolType {
    Label,
}

/// A named offset.
#[derive(Debug)]
pub struct Symbol {
    name: String,
    offset: u32,
    symbol_type: SymbolType,
}

/// What a symbol holds, with its name as characters.
pub struct SymbolView {
    pub name: Seq<char>,
    pub offset: u32,
    pub symbol_type: SymbolType,
}

impl View for Symbol {
    type V = SymbolView;

    closed spec fn view(&self) -> SymbolView {
        SymbolView { name: self.name@, offset: self.offset, symbol_type: self.symbol_type }
    }
}

/// The symbols of a program, in the order they were added.
#[derive(Debug)]
pub struct SymbolTable {
    pub symbols: Vec<Symbol>,
}

impl View for SymbolTable {
    type V = Seq<SymbolView>;

    open spec fn view(&self) -> Seq<SymbolView> {
        self.symbols@.map_values(|s: Symbol| s@)
    }
}

/// The first index at or after `i` of a symbol called `name`.
pub open spec fn find_from(syms: Seq<SymbolView>, name: Seq<char>, i: int) -> Option<int>
    decreases syms.len() - i,
{
    if i < 0 || i >= syms.len() {
        None
    } else if syms[i].name == name {
        Some(i)
    } else {
        find_from(syms, name, i + 1)
    }
}

/// The index of the first symbol called `name`.
pub open spec fn find_symbol(syms: Seq<SymbolView>, name: Seq<char>) -> Option<int> {
    find_from(syms, name, 0)
}

/// The offset of the first symbol called `name`: the one a lookup finds.
pub open spec fn lookup(syms: Seq<SymbolView>, name: Seq<char>) -> Option<u32> {
    match find_symbol(syms, name) {
        Some(k) => Some(syms[k].offset),
        None => None,
    }
}

/// The table after the first symbol called `name`, if any, is moved to `offset`.
pub open spec fn with_offset(syms: Seq<SymbolView>, name: Seq<char>, offset: u32) -> Seq<
    SymbolView,
> {
    match find_symbol(syms, name) {
        Some(k) => syms.update(
            k,
            SymbolView { name: syms[k].name, offset: offset, symbol_type: syms[k].symbol_type },
        ),
        None => syms,
    }
}

/// `find_from` gives the first matching index at or after `i`.
pub proof fn lemma_find_from(syms: Seq<SymbolView>, name: Seq<char>, i: int)
    requires
        0 <= i,
    ensures
        match find_from(syms, name, i) {
            Some(k) => i <= k < syms.len() && syms[k].name == name && forall|j: int|
                i <= j < k ==> #[trigger] syms[j].name != name,
            None => forall|j: int| i <= j < syms.len() ==> #[trigger] syms[j].name != name,
        },
    decreases syms.len() - i,
{
    if i < syms.len() && syms[i].name != name {
        lemma_find_from(syms, name, i + 1);
    }
}

/// `find_symbol` gives the first index whose symbol has the name, and no index
/// when there is none.
pub proof fn lemma_find_symbol(syms: Seq<SymbolView>, name: Seq<char>)
    ensures
        match find_symbol(syms, name) {
            Some(k) => 0 <= k < syms.len() && syms[k].name == name && forall|j: int|
                0 <= j < k ==> #[trigger] syms[j].name != name,
            None => forall|j: int| 0 <= j < syms.len() ==> #[trigger] syms[j].name != name,
        },
{
    lemma_find_from(syms, name, 0);
}

proof fn lemma_find_unique(syms: Seq<SymbolView>, name: Seq<char>, k: int)
    requires
        0 <= k < syms.len(),
        syms[k].name == name,
        forall|j: int| 0 <= j < k ==> #[trigger] syms[j].name != name,
    ensures
        find_symbol(syms, name) == Some(k),
{
    lemma_find_symbol(syms, name);
    match find_symbol(syms, name) {
        Some(m) => {
            if m < k {
                assert(syms[m].name != name);
            }
            if m > k {
                assert(syms[k].name != name);
            }
        },
        None => {
            assert(syms[k].name != name);
        },
    }
}

proof fn lemma_find_none(syms: Seq<SymbolView>, name: Seq<char>)
    requires
        forall|j: int| 0 <= j < syms.len() ==> #[trigger] syms[j].name != name,
    ensures
        find_symbol(syms, name) is None,
{
    lemma_find_symbol(syms, name);
    if let Some(m) = find_symbol(syms, name) {
        assert(syms[m].name != name);
    }
}

/// Adding a symbol leaves every name that was already in the table as it was,
/// and makes a name that was not there stand for the new symbol's offset.
pub proof fn lemma_lookup_after_add(syms: Seq<SymbolView>, s: SymbolView, name: Seq<char>)
    ensures
        lookup(syms.push(s), name) == (if lookup(syms, name) is Some {
            lookup(syms, name)
        } else if s.name == name {
            Some(s.offset)
        } else {
            None::<u32>
        }),
{
    let t = syms.push(s);
    lemma_find_symbol(syms, name);
    match find_symbol(syms, name) {
        Some(k) => {
            lemma_find_unique(t, name, k);
        },
        None => {
            if s.name == name {
                lemma_find_unique(t, name, syms.len() as int);
            } else {
                assert forall|j: int| 0 <= j < t.len() implies #[trigger] t[j].name != name by {
                    if j < syms.len() {
                        assert(t[j] == syms[j]);
                    }
                }
                lemma_find_none(t, name);
            }
        },
    }
}

/// Moving a symbol makes its name stand for the new offset and leaves every
/// other name as it was.
pub proof fn lemma_lookup_after_set_offset(
    syms: Seq<SymbolView>,
    name: Seq<char>,
    offset: u32,
    other: Seq<char>,
)
    ensures
        lookup(with_offset(syms, name, offset), name) == (if lookup(syms, name) is Some {
            Some(offset)
        } else {
            None::<u32>
        }),
        other != name ==> lookup(with_offset(syms, name, offset), other) == lookup(syms, other),
{
    let t = with_offset(syms, name, offset);
    lemma_find_symbol(syms, name);
    lemma_find_symbol(syms, other);
    match find_symbol(syms, name) {
        Some(k) => {
            assert forall|j: int| 0 <= j < t.len() implies #[trigger] t[j].name == syms[j].name by {
            }
            lemma_find_unique(t, name, k);
            if other != name {
                match find_symbol(syms, other) {
                    Some(m) => {
                        lemma_find_unique(t, other, m);
                        assert(m != k);
                    },
                    None => {
                        lemma_find_none(t, other);
                    },
                }
            }
        },
        None => {},
    }
}

/// Adding any number of symbols leaves every name that was already in the
/// table as it was: a later symbol under the same name never shadows it.
pub proof fn lemma_lookup_after_adds(syms: Seq<SymbolView>, more: Seq<SymbolView>, name: Seq<char>)
    requires
        lookup(syms, name) is Some,
    ensures
        lookup(syms + more, name) == lookup(syms, name),
    decreases more.len(),
{
    if more.len() > 0 {
        lemma_lookup_after_adds(syms, more.drop_last(), name);
        lemma_lookup_after_add(syms + more.drop_last(), more.last(), name);
        assert((syms + more.drop_last()).push(more.last()) =~= syms + more);
    } else {
        assert(syms + more =~= syms);
    }
}

/// A symbol added under a name the table did not hold is what a lookup of
/// that name finds, whatever is added after it.
pub proof fn law_first_added_symbol_stays(
    syms: Seq<SymbolView>,
    s: SymbolView,
    more: Seq<SymbolView>,
)
    requires
        lookup(syms, s.name) is None,
    ensures
        lookup(syms.push(s) + more, s.name) == Some(s.offset),
{
    lemma_lookup_after_add(syms, s, s.name);
    lemma_lookup_after_adds(syms.push(s), more, s.name);
}

/// Whether two strings hold the same characters.
pub fn str_eq(a: &str, b: &str) -> (r: bool)
    ensures
        r == (a@ == b@),
{
    let n = a.unicode_len();
    let m = b.unicode_len();
    if n != m {
        return false;
    }
    let mut i: usize = 0;
    while i < n
        invariant
            n == a@.len(),
            m == b@.len(),
            n == m,
            i <= n,
            forall|j: int| 0 <= j < i ==> a@[j] == b@[j],
        decreases n - i,
    {
        if a.get_char(i) != b.get_char(i) {
            return false;
        }
        i = i + 1;
    }
    assert(a@ =~= b@);
    true
}

impl Symbol {
    /// A symbol called `name` that stands for `offset`.
    pub fn new(name: String, symbol_type: SymbolType, offset: u32) -> (s: Symbol)
        ensures
            s@ == (SymbolView { name: name@, offset, symbol_type }),
    {
        Symbol { name, offset, symbol_type }
    }
}

impl SymbolTable {
    /// An empty table.
    pub fn new() -> (t: SymbolTable)
        ensures
            t@ == Seq::<SymbolView>::empty(),
    {
        SymbolTable { symbols: vec![] }
    }

    /// Appends a symbol to the table; a name already in the table keeps its
    /// first symbol for lookups.
    pub fn add_symbol(&mut self, s: Symbol)
        ensures
            final(self)@ == old(self)@.push(s@),
    {
        self.symbols.push(s);
        proof {
            assert(self@ =~= old(self)@.push(s@));
        }
    }

    /// The offset of the first symbol called `s`, if there is one.
    pub fn symbol_value(&self, s: &str) -> (r: Option<u32>)
        ensures
            r == lookup(self@, s@),
    {
        let n = self.symbols.len();
        let mut i: usize = 0;
        while i < n
            invariant
                n == self.symbols@.len(),
                i <= n,
                find_from(self@, s@, i as int) == find_symbol(self@, s@),
            decreases n - i,
        {
            if str_eq(self.symbols[i].name.as_str(), s) {
                return Some(self.symbols[i].offset);
            }
            i = i + 1;
        }
        None
    }

    /// Whether a symbol called `s` is in the table.
    pub fn has_symbol(&self, s: &str) -> (r: bool)
        ensures
            r == (lookup(self@, s@) is Some),
    {
        self.symbol_value(s).is_some()
    }

    /// Moves the first symbol called `s` to `offset`; tells whether there was one.
    pub fn set_symbol_offset(&mut self, s: &str, offset: u32) -> (r: bool)
        ensures
            r == (lookup(old(self)@, s@) is Some),
            final(self)@ == with_offset(old(self)@, s@, offset),
    {
        let n = self.symbols.len();
        let mut i: usize = 0;
        while i < n
            invariant
                n == self.symbols@.len(),
                i <= n,
                self@ == old(self)@,
                find_from(self@, s@, i as int) == find_symbol(self@, s@),
            decreases n - i,
        {
            if str_eq(self.symbols[i].name.as_str(), s) {
                let moved = Symbol {
                    name: self.symbols[i].name.clone(),
                    offset,
                    symbol_type: self.symbols[i].symbol_type,
                };
                self.symbols.set(i, moved);
                proof {
                    assert(self@ =~= with_offset(old(self)@, s@, offset));
                }
                return true;
            }
            i = i + 1;
        }
        false
    }
}

} // verus!
