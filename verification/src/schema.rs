//! The slice of the schema catalog that the optimizer reads: tables with
//! named columns, each column possibly marked as the table's primary key.
//!
//! Identifiers are compared after normalization: one pair of surrounding
//! quote characters (double quotes, backticks or square brackets) is
//! stripped, and ASCII letters are folded to lower case.
use vstd::prelude::*;

verus! {

#[derive(Debug, Clone, PartialEq)]
pub struct Column {
    pub name: String,
    pub primary_key: bool,
}

#[derive(Debug, Clone, PartialEq)]
pub struct Table {
    pub name: String,
    pub columns: Vec<Column>,
}

/// The mathematical value of a `Column`.
pub struct ColumnV {
    pub name: Seq<char>,
    pub primary_key: bool,
}

/// The mathematical value of a `Table`.
pub struct TableV {
    pub name: Seq<char>,
    pub columns: Seq<ColumnV>,
}

pub open spec fn column_view(c: Column) -> ColumnV {
    ColumnV { name: c.name@, primary_key: c.primary_key }
}

pub open spec fn columns_view(s: Seq<Column>) -> Seq<ColumnV> {
    Seq::new(s.len(), |i: int| column_view(s[i]))
}

pub open spec fn table_view(t: Table) -> TableV {
    TableV { name: t.name@, columns: columns_view(t.columns@) }
}

impl View for Column {
    type V = ColumnV;

    open spec fn view(&self) -> ColumnV {
        column_view(*self)
    }
}

impl View for Table {
    type V = TableV;

    open spec fn view(&self) -> TableV {
        table_view(*self)
    }
}

/// ASCII lower-casing of one character.
pub open spec fn lower_char(c: char) -> char {
    if 'A' <= c && c <= 'Z' {
        (((c as u8) + 32) as char)
    } else {
        c
    }
}

/// Whether `a` and `b` form a matching pair of identifier quotes.
pub open spec fn is_quote_pair(a: char, b: char) -> bool {
    (a == '"' && b == '"') || (a == '`' && b == '`') || (a == '[' && b == ']')
}

/// `s` with one pair of surrounding quote characters stripped, if present.
pub open spec fn unquoted(s: Seq<char>) -> Seq<char> {
    if s.len() >= 2 && is_quote_pair(s[0], s[s.len() - 1]) {
        s.subrange(1, s.len() - 1)
    } else {
        s
    }
}

/// The normal form under which identifiers are compared.
pub open spec fn normalized(s: Seq<char>) -> Seq<char> {
    Seq::new(unquoted(s).len(), |i: int| lower_char(unquoted(s)[i]))
}

/// The characters of `s`, one element per `char`.
pub fn chars_of(s: &str) -> (v: Vec<char>)
    ensures
        v@ == s@,
{
    let n = s.unicode_len();
    let mut v: Vec<char> = Vec::new();
    let mut i: usize = 0;
    while i < n
        invariant
            n == s@.len(),
            i <= n,
            v@ == s@.subrange(0, i as int),
        decreases n - i,
    {
        v.push(s.get_char(i));
        i = i + 1;
        proof {
            assert(v@ =~= s@.subrange(0, i as int));
        }
    }
    proof {
        assert(v@ =~= s@);
    }
    v
}

/// The normalized characters of `s`.
pub fn normalized_chars(s: &str) -> (v: Vec<char>)
    ensures
        v@ == normalized(s@),
{
    let raw = chars_of(s);
    let n = raw.len();
    let quoted = n >= 2 && {
        let a = raw[0];
        let b = raw[n - 1];
        (a == '"' && b == '"') || (a == '`' && b == '`') || (a == '[' && b == ']')
    };
    let (lo, hi) = if quoted {
        (1usize, n - 1)
    } else {
        (0usize, n)
    };
    let ghost uq = unquoted(s@);
    proof {
        assert(uq.len() == hi - lo);
        assert(forall|k: int| 0 <= k < uq.len() ==> uq[k] == s@[lo + k]);
    }
    let mut v: Vec<char> = Vec::new();
    let mut i: usize = lo;
    while i < hi
        invariant
            lo <= i <= hi <= raw@.len(),
            raw@ == s@,
            uq == unquoted(s@),
            uq.len() == hi - lo,
            forall|k: int| 0 <= k < uq.len() ==> uq[k] == s@[lo + k],
            v@.len() == i - lo,
            forall|k: int| 0 <= k < v@.len() ==> v@[k] == lower_char(uq[k]),
        decreases hi - i,
    {
        let c = raw[i];
        if 'A' <= c && c <= 'Z' {
            v.push(((c as u8) + 32) as char);
        } else {
            v.push(c);
        }
        i = i + 1;
    }
    proof {
        assert(v@ =~= normalized(s@));
    }
    v
}

/// Whether two identifiers agree after normalization.
pub fn ident_eq(a: &str, b: &str) -> (r: bool)
    ensures
        r == (normalized(a@) == normalized(b@)),
{
    let va = normalized_chars(a);
    let vb = normalized_chars(b);
    if va.len() != vb.len() {
        return false;
    }
    let n = va.len();
    let mut i: usize = 0;
    while i < n
        invariant
            n == va@.len() == vb@.len(),
            i <= n,
            va@ == normalized(a@),
            vb@ == normalized(b@),
            forall|k: int| 0 <= k < i ==> va@[k] == vb@[k],
        decreases n - i,
    {
        if va[i] != vb[i] {
            return false;
        }
        i = i + 1;
    }
    proof {
        assert(va@ =~= vb@);
    }
    true
}

/// The index of the first column of `cols` whose normalized name is `target`
/// (`target` itself already normalized).
pub open spec fn find_col(cols: Seq<ColumnV>, target: Seq<char>) -> Option<int>
    decreases cols,
{
    if cols.len() == 0 {
        Option::None
    } else if normalized(cols[0].name) == target {
        Option::Some(0int)
    } else {
        match find_col(cols.drop_first(), target) {
            Option::Some(i) => Option::Some(i + 1),
            Option::None => Option::None,
        }
    }
}

/// Whether table `t` has a primary-key column named `ident` (modulo
/// normalization).
pub open spec fn has_pk_column(t: TableV, ident: Seq<char>) -> bool {
    match find_col(t.columns, normalized(ident)) {
        Option::Some(i) => t.columns[i].primary_key,
        Option::None => false,
    }
}

proof fn lemma_find_col_prefix(cols: Seq<ColumnV>, target: Seq<char>, i: int)
    requires
        0 <= i <= cols.len(),
        forall|j: int| 0 <= j < i ==> normalized(#[trigger] cols[j].name) != target,
    ensures
        i == cols.len() ==> find_col(cols, target) is None,
        i < cols.len() && normalized(cols[i].name) == target ==> find_col(cols, target)
            == Option::Some(i),
    decreases i,
{
    if i > 0 {
        assert(normalized(cols[0].name) != target);
        lemma_find_col_prefix(cols.drop_first(), target, i - 1);
        assert(forall|j: int| 0 <= j < i - 1 ==> cols.drop_first()[j] == cols[j + 1]);
    }
}

impl Table {
    /// Look up a column by (normalized) name; returns its index and a copy.
    pub fn get_column(&self, name: &str) -> (r: Option<(usize, Column)>)
        ensures
            match r {
                Option::Some((i, c)) => {
                    &&& find_col(self@.columns, normalized(name@)) == Option::Some(i as int)
                    &&& 0 <= i < self.columns@.len()
                    &&& c@ == self@.columns[i as int]
                },
                Option::None => find_col(self@.columns, normalized(name@)) is None,
            },
    {
        let n = self.columns.len();
        let mut i: usize = 0;
        while i < n
            invariant
                n == self.columns@.len(),
                i <= n,
                forall|j: int| 0 <= j < i ==> normalized(
                    #[trigger] self@.columns[j].name,
                ) != normalized(name@),
            decreases n - i,
        {
            if ident_eq(self.columns[i].name.as_str(), name) {
                proof {
                    lemma_find_col_prefix(self@.columns, normalized(name@), i as int);
                }
                let c = &self.columns[i];
                return Option::Some((i, Column { name: c.name.clone(), primary_key: c.primary_key }));
            }
            i = i + 1;
        }
        proof {
            lemma_find_col_prefix(self@.columns, normalized(name@), n as int);
        }
        Option::None
    }

    /// Whether this table has a primary-key column named `name`.
    pub fn has_primary_key_column(&self, name: &str) -> (r: bool)
        ensures
            r == has_pk_column(self@, name@),
    {
        match self.get_column(name) {
            Option::Some((_, c)) => c.primary_key,
            Option::None => false,
        }
    }
}

} // verus!
