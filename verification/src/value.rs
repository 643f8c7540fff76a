//! The generic value tree that every markup format is decoded into.

use vstd::prelude::*;

use crate::error::{Error, Fault};

verus! {

/// True for the ten ASCII digits.
pub open spec fn is_digit(c: char) -> bool {
    '0' <= c && c <= '9'
}

/// A numeral without sign: digits, with at most one `.` that is neither the
/// first nor the last character.
pub open spec fn is_unsigned_numeral(s: Seq<char>) -> bool {
    &&& s.len() > 0
    &&& is_digit(s.first())
    &&& is_digit(s.last())
    &&& forall|i: int| 0 <= i < s.len() ==> is_digit(#[trigger] s[i]) || s[i] == '.'
    &&& forall|i: int, j: int|
        0 <= i < j < s.len() ==> !(#[trigger] s[i] == '.' && #[trigger] s[j] == '.')
}

/// A finite decimal numeral: an unsigned numeral, or `-` followed by one.
pub open spec fn is_numeral(s: Seq<char>) -> bool {
    if s.len() > 0 && s[0] == '-' {
        is_unsigned_numeral(s.skip(1))
    } else {
        is_unsigned_numeral(s)
    }
}

/// A finite floating-point number, kept as the decimal numeral that reads
/// back as the same number (`2`, `-5`, `123.456789`).
///
/// The library never computes with the number: it copies the numeral into
/// the literal it writes.
#[derive(Debug, PartialEq, Eq)]
pub struct Decimal {
    text: String,
}

impl View for Decimal {
    type V = Seq<char>;

    closed spec fn view(&self) -> Seq<char> {
        self.text@
    }
}

impl Clone for Decimal {
    fn clone(&self) -> (r: Decimal)
        ensures
            r@ == self@,
    {
        proof {
            use_type_invariant(self);
        }
        Decimal { text: self.text.clone() }
    }
}

impl Decimal {
    #[verifier::type_invariant]
    spec fn numeral(self) -> bool {
        is_numeral(self.text@)
    }

    /// Reads a numeral.  `None` unless `text` is a decimal numeral.
    pub fn parse(text: &str) -> (r: Option<Decimal>)
        ensures
            r is Some <==> is_numeral(text@),
            r matches Some(d) ==> d@ == text@,
    {
        let n: usize = text.unicode_len();
        let start: usize = if n > 0 && text.get_char(0) == '-' {
            1
        } else {
            0
        };
        let ghost body = text@.skip(start as int);
        assert(start == 0 ==> body =~= text@);
        assert(is_numeral(text@) <==> is_unsigned_numeral(body));
        if start >= n {
            return None;
        }
        let first: char = text.get_char(start);
        let last: char = text.get_char(n - 1);
        assert(body.first() == first && body.last() == last);
        if !(first >= '0' && first <= '9' && last >= '0' && last <= '9') {
            return None;
        }
        let mut seen_dot: bool = false;
        let mut i: usize = start;
        while i < n
            invariant
                start <= i <= n,
                n == text@.len(),
                body == text@.skip(start as int),
                is_numeral(text@) <==> is_unsigned_numeral(body),
                is_digit(body.first()) && is_digit(body.last()),
                forall|k: int| 0 <= k < i - start ==> is_digit(#[trigger] body[k]) || body[k] == '.',
                forall|k: int, l: int|
                    0 <= k < l < i - start ==> !(#[trigger] body[k] == '.' && #[trigger] body[l]
                        == '.'),
                seen_dot <==> exists|k: int| 0 <= k < i - start && #[trigger] body[k] == '.',
            decreases n - i,
        {
            let c: char = text.get_char(i);
            assert(body[i - start] == c);
            if c == '.' {
                if seen_dot {
                    proof {
                        let k = choose|k: int| 0 <= k < i - start && #[trigger] body[k] == '.';
                        assert(body[k] == '.' && body[i - start] == '.');
                    }
                    return None;
                }
                seen_dot = true;
            } else if !(c >= '0' && c <= '9') {
                assert(!(is_digit(body[i - start]) || body[i - start] == '.'));
                return None;
            }
            i = i + 1;
        }
        assert(is_unsigned_numeral(body));
        Some(Decimal { text: text.to_owned() })
    }

    /// The numeral.
    pub fn as_str(&self) -> (r: &str)
        ensures
            r@ == self@,
            is_numeral(r@),
    {
        proof {
            use_type_invariant(self);
        }
        self.text.as_str()
    }
}

/// A record: an ordered list of keyed values.  The order of the entries is
/// the order of the fields that are written for it.  No key occurs twice:
/// a record is built with [`Struct::new`], [`Struct::insert`] and
/// [`Struct::from_pairs`] only, and each of them keeps the keys distinct.
#[derive(Debug, PartialEq)]
pub struct Struct(pub(crate) Vec<(String, Value)>);

/// A generic value.
#[derive(Debug, PartialEq)]
pub enum Value {
    Unit,
    Bool(bool),
    Char(char),
    I8(i8),
    I16(i16),
    I32(i32),
    I64(i64),
    I128(i128),
    ISize(isize),
    U8(u8),
    U16(u16),
    U32(u32),
    U64(u64),
    U128(u128),
    USize(usize),
    F32(Decimal),
    F64(Decimal),
    String(String),
    Option(Option<Box<Value>>),
    Tuple(Vec<Value>),
    Array(usize, Vec<Value>),
    Vec(Vec<Value>),
    Struct(Struct),
}

/// What a [`Value`] is, as mathematics: text is a sequence of characters
/// and a collection is a sequence of trees.
pub ghost enum Tree {
    Unit,
    Bool(bool),
    Char(char),
    I8(i8),
    I16(i16),
    I32(i32),
    I64(i64),
    I128(i128),
    ISize(isize),
    U8(u8),
    U16(u16),
    U32(u32),
    U64(u64),
    U128(u128),
    USize(usize),
    F32(Seq<char>),
    F64(Seq<char>),
    String(Seq<char>),
    Option(Option<Box<Tree>>),
    Tuple(Seq<Tree>),
    Array(usize, Seq<Tree>),
    Vec(Seq<Tree>),
    Struct(Seq<(Seq<char>, Tree)>),
}

/// The trees of a list of values, in order.
pub open spec fn trees_of(items: Seq<Value>) -> Seq<Tree>
    decreases items,
{
    Seq::new(
        items.len(),
        |i: int|
            if 0 <= i < items.len() {
                tree_of(items[i])
            } else {
                Tree::Unit
            },
    )
}

/// The keyed trees of a list of entries, in order.
pub open spec fn fields_of(entries: Seq<(String, Value)>) -> Seq<(Seq<char>, Tree)>
    decreases entries,
{
    Seq::new(
        entries.len(),
        |i: int|
            if 0 <= i < entries.len() {
                (entries[i].0@, tree_of(entries[i].1))
            } else {
                (Seq::empty(), Tree::Unit)
            },
    )
}

/// The tree of a value.
pub open spec fn tree_of(v: Value) -> Tree
    decreases v,
{
    match v {
        Value::Unit => Tree::Unit,
        Value::Bool(x) => Tree::Bool(x),
        Value::Char(x) => Tree::Char(x),
        Value::I8(x) => Tree::I8(x),
        Value::I16(x) => Tree::I16(x),
        Value::I32(x) => Tree::I32(x),
        Value::I64(x) => Tree::I64(x),
        Value::I128(x) => Tree::I128(x),
        Value::ISize(x) => Tree::ISize(x),
        Value::U8(x) => Tree::U8(x),
        Value::U16(x) => Tree::U16(x),
        Value::U32(x) => Tree::U32(x),
        Value::U64(x) => Tree::U64(x),
        Value::U128(x) => Tree::U128(x),
        Value::USize(x) => Tree::USize(x),
        Value::F32(x) => Tree::F32(x@),
        Value::F64(x) => Tree::F64(x@),
        Value::String(x) => Tree::String(x@),
        Value::Option(None) => Tree::Option(None),
        Value::Option(Some(inner)) => Tree::Option(Some(Box::new(tree_of(*inner)))),
        Value::Tuple(items) => Tree::Tuple(trees_of(items@)),
        Value::Array(len, items) => Tree::Array(len, trees_of(items@)),
        Value::Vec(items) => Tree::Vec(trees_of(items@)),
        Value::Struct(fields) => Tree::Struct(struct_fields(fields)),
    }
}

/// The keyed trees of a record, in the order of its entries.
pub closed spec fn struct_fields(s: Struct) -> Seq<(Seq<char>, Tree)>
    decreases s,
{
    fields_of(s.0@)
}

/// The view of a record is made of its entries, one for one.
pub(crate) proof fn lemma_struct_fields(s: Struct)
    ensures
        s@ == fields_of(s.0@),
        s@.len() == s.0@.len(),
        forall|i: int|
            0 <= i < s.0@.len() ==> #[trigger] s@[i] == (s.0@[i].0@, tree_of(s.0@[i].1)),
{
}

/// `trees_of` keeps the length and maps item by item.
pub proof fn lemma_trees_of(items: Seq<Value>)
    ensures
        trees_of(items).len() == items.len(),
        forall|i: int| 0 <= i < items.len() ==> #[trigger] trees_of(items)[i] == tree_of(items[i]),
{
}

/// `fields_of` keeps the length and maps entry by entry.
pub proof fn lemma_fields_of(entries: Seq<(String, Value)>)
    ensures
        fields_of(entries).len() == entries.len(),
        forall|i: int|
            0 <= i < entries.len() ==> #[trigger] fields_of(entries)[i] == (
                entries[i].0@,
                tree_of(entries[i].1),
            ),
{
}

impl View for Value {
    type V = Tree;

    open spec fn view(&self) -> Tree {
        tree_of(*self)
    }
}

impl View for Struct {
    type V = Seq<(Seq<char>, Tree)>;

    open spec fn view(&self) -> Seq<(Seq<char>, Tree)> {
        struct_fields(*self)
    }
}

/// No key occurs twice among the entries.
pub open spec fn keys_distinct(fields: Seq<(Seq<char>, Tree)>) -> bool {
    forall|i: int, j: int|
        0 <= i < j < fields.len() ==> (#[trigger] fields[i]).0 != (#[trigger] fields[j]).0
}

/// The first `n` trees are well formed.
pub open spec fn all_well_formed(items: Seq<Tree>, n: nat) -> bool
    decreases items, n,
{
    if n == 0 || n > items.len() {
        true
    } else {
        all_well_formed(items, (n - 1) as nat) && well_formed(items[n - 1])
    }
}

/// The first `n` entries hold well-formed trees.
pub open spec fn all_fields_well_formed(fields: Seq<(Seq<char>, Tree)>, n: nat) -> bool
    decreases fields, n,
{
    if n == 0 || n > fields.len() {
        true
    } else {
        all_fields_well_formed(fields, (n - 1) as nat) && well_formed(fields[n - 1].1)
    }
}

/// The invariant of the data model, at every depth: a fixed array holds as
/// many items as its declared length, and the keys of a record are distinct.
/// Of a [`Value`] the second always holds, by the invariant of [`Struct`].
pub open spec fn well_formed(t: Tree) -> bool
    decreases t, 0nat,
{
    match t {
        Tree::Option(Some(inner)) => well_formed(*inner),
        Tree::Tuple(items) => all_well_formed(items, items.len()),
        Tree::Array(len, items) => len == items.len() && all_well_formed(items, items.len()),
        Tree::Vec(items) => all_well_formed(items, items.len()),
        Tree::Struct(fields) => keys_distinct(fields) && all_fields_well_formed(
            fields,
            fields.len(),
        ),
        _ => true,
    }
}

/// The name of the kind of a tree that is no record, as it is reported when
/// a record was expected.
pub open spec fn kind_name(t: Tree) -> Seq<char> {
    match t {
        Tree::Unit => "()"@,
        Tree::Bool(_) => "bool"@,
        Tree::Char(_) => "char"@,
        Tree::I8(_) => "i8"@,
        Tree::I16(_) => "i16"@,
        Tree::I32(_) => "i32"@,
        Tree::I64(_) => "i64"@,
        Tree::I128(_) => "i128"@,
        Tree::ISize(_) => "isize"@,
        Tree::U8(_) => "u8"@,
        Tree::U16(_) => "u16"@,
        Tree::U32(_) => "u32"@,
        Tree::U64(_) => "u64"@,
        Tree::U128(_) => "u128"@,
        Tree::USize(_) => "usize"@,
        Tree::F32(_) => "f32"@,
        Tree::F64(_) => "f64"@,
        Tree::String(_) => "String"@,
        Tree::Option(_) => "Option"@,
        Tree::Tuple(_) => "tuple"@,
        Tree::Array(_, _) => "array"@,
        Tree::Vec(_) => "Vec"@,
        Tree::Struct(_) => "struct"@,
    }
}

/// The position of the first entry with this key among the first `n`, or
/// `n` where none has it.
pub open spec fn key_position(fields: Seq<(Seq<char>, Tree)>, key: Seq<char>, n: nat) -> nat
    decreases n,
{
    if n == 0 || n > fields.len() {
        0
    } else {
        let before = key_position(fields, key, (n - 1) as nat);
        if before < n - 1 || fields[n - 1].0 == key {
            before
        } else {
            n
        }
    }
}

/// The entries after `key` has been given the value `tree`: the entry that
/// has the key keeps its place and takes the value; without such an entry a
/// new one comes last.
pub open spec fn with_entry(fields: Seq<(Seq<char>, Tree)>, key: Seq<char>, tree: Tree) -> Seq<
    (Seq<char>, Tree),
> {
    let at = key_position(fields, key, fields.len());
    if at < fields.len() {
        fields.update(at as int, (key, tree))
    } else {
        fields.push((key, tree))
    }
}

/// The record that the first `n` pairs build, each given in turn.
pub open spec fn collected(pairs: Seq<(Seq<char>, Tree)>, n: nat) -> Seq<(Seq<char>, Tree)>
    decreases n,
{
    if n == 0 || n > pairs.len() {
        Seq::empty()
    } else {
        with_entry(collected(pairs, (n - 1) as nat), pairs[n - 1].0, pairs[n - 1].1)
    }
}

/// `key_position` finds an entry with the key, and none stands before it.
pub proof fn lemma_key_position(fields: Seq<(Seq<char>, Tree)>, key: Seq<char>, n: nat)
    requires
        n <= fields.len(),
    ensures
        key_position(fields, key, n) <= n,
        key_position(fields, key, n) < n ==> fields[key_position(fields, key, n) as int].0 == key,
        forall|i: int| 0 <= i < key_position(fields, key, n) ==> (#[trigger] fields[i]).0 != key,
    decreases n,
{
    if n > 0 {
        lemma_key_position(fields, key, (n - 1) as nat);
    }
}

/// Once an entry with the key is among the first `n`, looking further
/// finds the same entry.
pub proof fn lemma_position_stays(fields: Seq<(Seq<char>, Tree)>, key: Seq<char>, n: nat, m: nat)
    requires
        n < m <= fields.len(),
        key_position(fields, key, n) == n,
        fields[n as int].0 == key,
    ensures
        key_position(fields, key, m) == n,
    decreases m,
{
    if m > n + 1 {
        lemma_position_stays(fields, key, n, (m - 1) as nat);
    }
}

/// Giving a key a value keeps the keys distinct.
pub proof fn lemma_with_entry_distinct(fields: Seq<(Seq<char>, Tree)>, key: Seq<char>, tree: Tree)
    requires
        keys_distinct(fields),
    ensures
        keys_distinct(with_entry(fields, key, tree)),
{
    lemma_key_position(fields, key, fields.len());
    let at = key_position(fields, key, fields.len());
    let after = with_entry(fields, key, tree);
    assert forall|i: int, j: int| 0 <= i < j < after.len() implies (#[trigger] after[i]).0 != (
    #[trigger] after[j]).0 by {
        if at < fields.len() {
            assert(after[i].0 == fields[i].0);
            assert(after[j].0 == fields[j].0);
        } else {
            if j < fields.len() {
                assert(after[i] == fields[i]);
                assert(after[j] == fields[j]);
            } else {
                assert(after[i] == fields[i]);
            }
        }
    }
}

/// The keys of a collected record are distinct.
pub proof fn lemma_collected_distinct(pairs: Seq<(Seq<char>, Tree)>, n: nat)
    requires
        n <= pairs.len(),
    ensures
        keys_distinct(collected(pairs, n)),
    decreases n,
{
    if n > 0 {
        lemma_collected_distinct(pairs, (n - 1) as nat);
        lemma_with_entry_distinct(
            collected(pairs, (n - 1) as nat),
            pairs[n - 1].0,
            pairs[n - 1].1,
        );
    }
}

/// A copy of a list of values.
fn copy_values(items: &Vec<Value>) -> (r: Vec<Value>)
    ensures
        trees_of(r@) == trees_of(items@),
    decreases items,
{
    let mut out: Vec<Value> = Vec::new();
    let mut i: usize = 0;
    while i < items.len()
        invariant
            i <= items.len(),
            out@.len() == i,
            forall|k: int| 0 <= k < i ==> tree_of(#[trigger] out@[k]) == tree_of(items@[k]),
        decreases items.len() - i,
    {
        let item = copy_value(&items[i]);
        out.push(item);
        i = i + 1;
    }
    assert(trees_of(out@) =~= trees_of(items@));
    out
}

/// A copy of a value.
fn copy_value(v: &Value) -> (r: Value)
    ensures
        r@ == v@,
    decreases v,
{
    match v {
        Value::Unit => Value::Unit,
        Value::Bool(x) => Value::Bool(*x),
        Value::Char(x) => Value::Char(*x),
        Value::I8(x) => Value::I8(*x),
        Value::I16(x) => Value::I16(*x),
        Value::I32(x) => Value::I32(*x),
        Value::I64(x) => Value::I64(*x),
        Value::I128(x) => Value::I128(*x),
        Value::ISize(x) => Value::ISize(*x),
        Value::U8(x) => Value::U8(*x),
        Value::U16(x) => Value::U16(*x),
        Value::U32(x) => Value::U32(*x),
        Value::U64(x) => Value::U64(*x),
        Value::U128(x) => Value::U128(*x),
        Value::USize(x) => Value::USize(*x),
        Value::F32(x) => Value::F32(x.clone()),
        Value::F64(x) => Value::F64(x.clone()),
        Value::String(x) => Value::String(x.clone()),
        Value::Option(None) => Value::Option(None),
        Value::Option(Some(inner)) => Value::Option(Some(Box::new(copy_value(inner)))),
        Value::Tuple(items) => Value::Tuple(copy_values(items)),
        Value::Array(len, items) => Value::Array(*len, copy_values(items)),
        Value::Vec(items) => Value::Vec(copy_values(items)),
        Value::Struct(fields) => Value::Struct(copy_struct(fields)),
    }
}

/// A copy of a record.
fn copy_struct(s: &Struct) -> (r: Struct)
    ensures
        r@ == s@,
    decreases s,
{
    let mut out: Vec<(String, Value)> = Vec::new();
    let mut i: usize = 0;
    while i < s.0.len()
        invariant
            i <= s.0.len(),
            out@.len() == i,
            forall|k: int|
                0 <= k < i ==> (#[trigger] out@[k]).0@ == s.0@[k].0@ && tree_of(out@[k].1)
                    == tree_of(s.0@[k].1),
        decreases s.0.len() - i,
    {
        let key = s.0[i].0.clone();
        let value = copy_value(&s.0[i].1);
        out.push((key, value));
        i = i + 1;
    }
    assert(fields_of(out@) =~= fields_of(s.0@));
    s.rebuilt(out)
}

impl Clone for Value {
    fn clone(&self) -> (r: Value)
        ensures
            r@ == self@,
    {
        copy_value(self)
    }
}

impl Clone for Struct {
    fn clone(&self) -> (r: Struct)
        ensures
            r@ == self@,
    {
        copy_struct(self)
    }
}

impl Default for Struct {
    fn default() -> (r: Struct)
        ensures
            r@ == Seq::<(Seq<char>, Tree)>::empty(),
    {
        Struct::new()
    }
}

impl Struct {
    #[verifier::type_invariant]
    spec fn distinct(self) -> bool {
        keys_distinct(fields_of(self.0@))
    }

    /// A record without entries.
    pub fn new() -> (r: Struct)
        ensures
            r@ == Seq::<(Seq<char>, Tree)>::empty(),
    {
        let entries: Vec<(String, Value)> = Vec::new();
        assert(fields_of(entries@) =~= Seq::<(Seq<char>, Tree)>::empty());
        Struct(entries)
    }

    /// The number of entries.
    pub fn len(&self) -> (n: usize)
        ensures
            n == self@.len(),
    {
        self.0.len()
    }

    /// The entries in their order.
    pub fn entries(&self) -> (r: &Vec<(String, Value)>)
        ensures
            fields_of(r@) == self@,
    {
        &self.0
    }

    /// The keys of a record are distinct.  The call does nothing: it hands
    /// the invariant of the type to the caller's proof.
    pub fn keys_are_distinct(&self)
        ensures
            keys_distinct(self@),
    {
        proof {
            use_type_invariant(self);
        }
    }

    /// A record with the keys of this one, in their order, and other
    /// values.
    pub(crate) fn rebuilt(&self, entries: Vec<(String, Value)>) -> (r: Struct)
        requires
            entries@.len() == self.0@.len(),
            forall|k: int| 0 <= k < entries@.len() ==> (#[trigger] entries@[k]).0@ == self.0@[k].0@,
        ensures
            r@ == fields_of(entries@),
            r.0@ == entries@,
    {
        proof {
            use_type_invariant(self);
            let before = fields_of(self.0@);
            let after = fields_of(entries@);
            assert forall|i: int, j: int| 0 <= i < j < after.len() implies (#[trigger] after[i]).0
                != (#[trigger] after[j]).0 by {
                assert(before[i].0 != before[j].0);
            }
        }
        Struct(entries)
    }

    /// The record after `key` has been given the value `value`.
    fn with(self, key: String, value: Value) -> (r: Struct)
        ensures
            r@ == with_entry(self@, key@, value@),
    {
        let ghost before = self@;
        proof {
            use_type_invariant(&self);
            lemma_with_entry_distinct(before, key@, value@);
        }
        let mut entries = self.0;
        let n: usize = entries.len();
        let mut i: usize = 0;
        let mut found: bool = false;
        while i < n && !found
            invariant
                i <= n,
                n == entries@.len(),
                fields_of(entries@) == before,
                key_position(before, key@, i as nat) == i,
                found ==> i < n && before[i as int].0 == key@,
            decreases n - i, (if found { 0int } else { 1int }),
        {
            if entries[i].0 == key {
                found = true;
            } else {
                i = i + 1;
            }
        }
        proof {
            lemma_key_position(before, key@, n as nat);
            lemma_key_position(before, key@, i as nat);
            if i < n {
                lemma_position_stays(before, key@, i as nat, n as nat);
            }
        }
        if i < n {
            entries.set(i, (key, value));
        } else {
            entries.push((key, value));
        }
        assert(fields_of(entries@) =~= with_entry(before, key@, value@));
        Struct(entries)
    }

    /// Gives `key` the value `value`: the entry that has the key keeps its
    /// place and takes the value; without such an entry a new one comes last.
    pub fn insert(&mut self, key: String, value: Value)
        ensures
            final(self)@ == with_entry(old(self)@, key@, value@),
    {
        let mut taken = Struct::new();
        core::mem::swap(self, &mut taken);
        *self = taken.with(key, value);
    }

    /// The record that the pairs build, each given in turn: of two pairs
    /// with one key the first decides the place and the last the value.
    pub fn from_pairs(pairs: Vec<(String, Value)>) -> (r: Struct)
        ensures
            r@ == collected(fields_of(pairs@), pairs@.len()),
            keys_distinct(r@),
    {
        let ghost all = fields_of(pairs@);
        let mut out = Struct::new();
        let mut i: usize = 0;
        while i < pairs.len()
            invariant
                i <= pairs.len(),
                all == fields_of(pairs@),
                out@ == collected(all, i as nat),
            decreases pairs.len() - i,
        {
            let key = pairs[i].0.clone();
            let value = pairs[i].1.clone();
            out.insert(key, value);
            i = i + 1;
        }
        proof {
            lemma_collected_distinct(all, pairs@.len());
        }
        out
    }
}

impl Value {
    /// The record that this value is, or the error that names what it is
    /// instead.
    pub fn assume_struct(self) -> (r: Result<Struct, Error>)
        ensures
            self is Struct ==> r == Ok::<Struct, Error>(self->Struct_0),
            !(self is Struct) ==> (r matches Err(e) && e@ == Fault::ExpectedStruct(
                kind_name(self@),
            )),
    {
        match self {
            Value::Struct(s) => Ok(s),
            Value::Unit => Err(Error::ExpectedStruct("()")),
            Value::Bool(_) => Err(Error::ExpectedStruct("bool")),
            Value::Char(_) => Err(Error::ExpectedStruct("char")),
            Value::I8(_) => Err(Error::ExpectedStruct("i8")),
            Value::I16(_) => Err(Error::ExpectedStruct("i16")),
            Value::I32(_) => Err(Error::ExpectedStruct("i32")),
            Value::I64(_) => Err(Error::ExpectedStruct("i64")),
            Value::I128(_) => Err(Error::ExpectedStruct("i128")),
            Value::ISize(_) => Err(Error::ExpectedStruct("isize")),
            Value::U8(_) => Err(Error::ExpectedStruct("u8")),
            Value::U16(_) => Err(Error::ExpectedStruct("u16")),
            Value::U32(_) => Err(Error::ExpectedStruct("u32")),
            Value::U64(_) => Err(Error::ExpectedStruct("u64")),
            Value::U128(_) => Err(Error::ExpectedStruct("u128")),
            Value::USize(_) => Err(Error::ExpectedStruct("usize")),
            Value::F32(_) => Err(Error::ExpectedStruct("f32")),
            Value::F64(_) => Err(Error::ExpectedStruct("f64")),
            Value::String(_) => Err(Error::ExpectedStruct("String")),
            Value::Option(_) => Err(Error::ExpectedStruct("Option")),
            Value::Tuple(_) => Err(Error::ExpectedStruct("tuple")),
            Value::Array(_, _) => Err(Error::ExpectedStruct("array")),
            Value::Vec(_) => Err(Error::ExpectedStruct("Vec")),
        }
    }
}

} // verus!
