use vstd::prelude::*;
use crate::value_type::{ValueType, value_type_name};
use crate::identifier::{Identifier, ids_view, ids_contain};
use crate::syntax::expression::{Expression, SExpr, expr_eq, strip_expr};
use crate::syntax::pattern::{Pattern, SPattern, pattern_eq, strip_pattern};
use crate::strings::{seq_lt, str_lt, str_eq, int_decimal, bool_text, i64_to_string, bool_to_string, chars_of, string_from_chars};

verus! {

/// A runtime value.
#[derive(Debug)]
pub enum Value {
    Null,
    String(String),
    Integer(i64),
    Boolean(bool),
    Array(Vec<Value>),
    Object(ValueMap),
    Type(ValueType),
    Lambda(LambdaBinding, Pattern, Expression),
}

/// A map from strings to values whose entries are kept sorted by key,
/// each key at most once.
#[derive(Debug)]
pub struct ValueMap {
    pub(crate) entries: Vec<(String, Value)>,
}

/// The values captured by a lambda when it was created.
#[derive(Debug)]
pub struct LambdaBinding {
    pub bindings: ValueMap,
}

/// A sequence of values, as written separated by `;`.
#[derive(Debug)]
pub struct ValueBag {
    pub values: Vec<Value>,
}

// ---------------------------------------------------------------------------
// The mathematical model of values.
// ---------------------------------------------------------------------------

pub enum SValue {
    Null,
    String(Seq<char>),
    Integer(i64),
    Boolean(bool),
    Array(Seq<SValue>),
    /// Entries sorted strictly by key.
    Object(Seq<(Seq<char>, SValue)>),
    Type(ValueType),
    /// Captured bindings (sorted strictly by name), parameter pattern, body.
    Lambda(Seq<(Seq<char>, SValue)>, SPattern, SExpr),
}

pub open spec fn value_view(v: &Value) -> SValue
    decreases v, 0int,
{
    match v {
        Value::Null => SValue::Null,
        Value::String(s) => SValue::String(s@),
        Value::Integer(i) => SValue::Integer(*i),
        Value::Boolean(b) => SValue::Boolean(*b),
        Value::Array(a) => SValue::Array(values_view(a)),
        Value::Object(o) => SValue::Object(map_view(o)),
        Value::Type(t) => SValue::Type(*t),
        Value::Lambda(b, p, e) => SValue::Lambda(map_view(&b.bindings), p@, e@),
    }
}

pub open spec fn values_view(v: &Vec<Value>) -> Seq<SValue>
    decreases v, 0int,
{
    Seq::new(v.len() as nat, |i: int| if 0 <= i < v.len() { value_view(&v[i]) } else { arbitrary() })
}

pub open spec fn entry_view(e: &(String, Value)) -> (Seq<char>, SValue)
    decreases e, 0int,
{
    (e.0@, value_view(&e.1))
}

pub open(crate) spec fn map_view(m: &ValueMap) -> Seq<(Seq<char>, SValue)>
    decreases m, 1int,
{
    entries_view(&m.entries)
}

pub open(crate) spec fn entries_view(v: &Vec<(String, Value)>) -> Seq<(Seq<char>, SValue)>
    decreases v, 0int,
{
    Seq::new(v.len() as nat, |i: int| if 0 <= i < v.len() { entry_view(&v[i]) } else { arbitrary() })
}

// ---------------------------------------------------------------------------
// Equality of values: a lambda's patterns compare without their locations.
// ---------------------------------------------------------------------------

/// The value with the location of every pattern inside it dropped.
pub open spec fn strip_value(v: SValue) -> SValue
    decreases v,
{
    match v {
        SValue::Array(a) => SValue::Array(strip_values(a)),
        SValue::Object(o) => SValue::Object(strip_entries(o)),
        SValue::Lambda(env, p, e) => SValue::Lambda(strip_entries(env), strip_pattern(p), strip_expr(e)),
        other => other,
    }
}

pub open spec fn strip_values(s: Seq<SValue>) -> Seq<SValue>
    decreases s,
{
    Seq::new(s.len(), |i: int| if 0 <= i < s.len() { strip_value(s[i]) } else { arbitrary() })
}

pub open spec fn strip_entries(m: Seq<(Seq<char>, SValue)>) -> Seq<(Seq<char>, SValue)>
    decreases m,
{
    Seq::new(m.len(), |i: int| if 0 <= i < m.len() { (m[i].0, strip_value(m[i].1)) } else { arbitrary() })
}

/// Whether two values are equal, as `==` compares them: structurally, with
/// the patterns of lambdas compared by their bodies alone.
pub open spec fn same_value(a: SValue, b: SValue) -> bool {
    strip_value(a) == strip_value(b)
}

impl View for Value {
    type V = SValue;

    open spec fn view(&self) -> SValue {
        value_view(self)
    }
}

impl View for ValueMap {
    type V = Seq<(Seq<char>, SValue)>;

    open spec fn view(&self) -> Seq<(Seq<char>, SValue)> {
        map_view(self)
    }
}

impl View for LambdaBinding {
    type V = Seq<(Seq<char>, SValue)>;

    open spec fn view(&self) -> Seq<(Seq<char>, SValue)> {
        map_view(&self.bindings)
    }
}

impl View for ValueBag {
    type V = Seq<SValue>;

    open spec fn view(&self) -> Seq<SValue> {
        values_view(&self.values)
    }
}

// ---------------------------------------------------------------------------
// Sorted maps from strings to values.
// ---------------------------------------------------------------------------

/// The value stored under `k`, if any.
pub open spec fn smap_get(m: Seq<(Seq<char>, SValue)>, k: Seq<char>) -> Option<SValue>
    decreases m.len(),
{
    if m.len() == 0 {
        None
    } else if m[0].0 == k {
        Some(m[0].1)
    } else {
        smap_get(m.drop_first(), k)
    }
}

/// The map with `k` bound to `v`: an existing entry for `k` is replaced,
/// otherwise the entry goes before the first key that is greater.
pub open spec fn smap_insert(m: Seq<(Seq<char>, SValue)>, k: Seq<char>, v: SValue) -> Seq<(Seq<char>, SValue)>
    decreases m.len(),
{
    if m.len() == 0 {
        seq![(k, v)]
    } else if m[0].0 == k {
        seq![(k, v)] + m.drop_first()
    } else if seq_lt(k, m[0].0) {
        seq![(k, v)] + m
    } else {
        seq![m[0]] + smap_insert(m.drop_first(), k, v)
    }
}

/// Keys strictly increasing.
pub open spec fn smap_sorted(m: Seq<(Seq<char>, SValue)>) -> bool {
    forall|i: int, j: int| 0 <= i < j < m.len() ==> seq_lt(#[trigger] m[i].0, #[trigger] m[j].0)
}

pub open spec fn smap_keys(m: Seq<(Seq<char>, SValue)>) -> Seq<Seq<char>> {
    Seq::new(m.len(), |i: int| m[i].0)
}

pub open spec fn smap_values(m: Seq<(Seq<char>, SValue)>) -> Seq<SValue> {
    Seq::new(m.len(), |i: int| m[i].1)
}

pub open spec fn smap_has(m: Seq<(Seq<char>, SValue)>, k: Seq<char>) -> bool {
    smap_get(m, k).is_some()
}

impl ValueMap {
    /// Every map holds its keys in strictly increasing order.
    #[verifier::type_invariant]
    pub(crate) open spec fn keys_increase(self) -> bool {
        smap_sorted(map_view(&self))
    }
}

proof fn lemma_get_skip(m: Seq<(Seq<char>, SValue)>, k: Seq<char>, i: int)
    requires
        0 <= i < m.len(),
        forall|j: int| 0 <= j < i ==> m[j].0 != k,
    ensures
        smap_get(m, k) == smap_get(m.skip(i), k),
    decreases i,
{
    if i > 0 {
        assert(m.drop_first().skip(i - 1) =~= m.skip(i));
        lemma_get_skip(m.drop_first(), k, i - 1);
    } else {
        assert(m.skip(0) =~= m);
    }
}

proof fn lemma_get_absent(m: Seq<(Seq<char>, SValue)>, k: Seq<char>)
    requires
        forall|j: int| 0 <= j < m.len() ==> m[j].0 != k,
    ensures
        smap_get(m, k).is_none(),
    decreases m.len(),
{
    if m.len() > 0 {
        lemma_get_absent(m.drop_first(), k);
    }
}

proof fn lemma_insert_at(m: Seq<(Seq<char>, SValue)>, k: Seq<char>, v: SValue, i: int)
    requires
        0 <= i <= m.len(),
        forall|j: int| 0 <= j < i ==> m[j].0 != k && !seq_lt(k, #[trigger] m[j].0),
        i < m.len() ==> (m[i].0 == k || seq_lt(k, m[i].0)),
    ensures
        smap_insert(m, k, v) == (if i < m.len() && m[i].0 == k {
            m.update(i, (k, v))
        } else {
            m.insert(i, (k, v))
        }),
    decreases i,
{
    if i == 0 {
        if m.len() > 0 && m[0].0 == k {
            assert(seq![(k, v)] + m.drop_first() =~= m.update(0, (k, v)));
        } else {
            assert(seq![(k, v)] + m =~= m.insert(0, (k, v)));
        }
    } else {
        lemma_insert_at(m.drop_first(), k, v, i - 1);
        if i < m.len() && m[i].0 == k {
            assert(seq![m[0]] + m.drop_first().update(i - 1, (k, v)) =~= m.update(i, (k, v)));
        } else {
            assert(seq![m[0]] + m.drop_first().insert(i - 1, (k, v)) =~= m.insert(i, (k, v)));
        }
    }
}

impl ValueMap {
    /// The empty map.
    pub fn new() -> (r: ValueMap)
        ensures
            r@ == Seq::<(Seq<char>, SValue)>::empty(),
            smap_sorted(r@),
    {
        let r = ValueMap { entries: Vec::new() };
        assert(r@ =~= Seq::<(Seq<char>, SValue)>::empty());
        r
    }

    pub fn len(&self) -> (r: usize)
        ensures
            r == self@.len(),
    {
        self.entries.len()
    }

    pub fn is_empty(&self) -> (r: bool)
        ensures
            r == (self@.len() == 0),
    {
        self.entries.len() == 0
    }

    /// The index of the entry for `k`, if there is one.
    pub fn position(&self, k: &str) -> (r: Option<usize>)
        ensures
            match r {
                Some(i) => i < self@.len() && self@[i as int].0 == k@ && smap_get(self@, k@) == Some(self@[i as int].1),
                None => smap_get(self@, k@).is_none(),
            },
    {
        let mut i: usize = 0;
        while i < self.entries.len()
            invariant
                i <= self.entries.len(),
                forall|j: int| 0 <= j < i ==> self@[j].0 != k@,
            decreases self.entries.len() - i,
        {
            if str_eq(self.entries[i].0.as_str(), k) {
                proof {
                    lemma_get_skip(self@, k@, i as int);
                    assert(self@.skip(i as int)[0] == self@[i as int]);
                }
                return Some(i);
            }
            i += 1;
        }
        proof {
            lemma_get_absent(self@, k@);
        }
        None
    }

    /// The value stored under `k`, if any.
    pub fn get(&self, k: &str) -> (r: Option<&Value>)
        ensures
            match r {
                Some(v) => smap_get(self@, k@) == Some(v@),
                None => smap_get(self@, k@).is_none(),
            },
    {
        match self.position(k) {
            Some(i) => Some(&self.entries[i].1),
            None => None,
        }
    }

    pub fn contains_key(&self, k: &str) -> (r: bool)
        ensures
            r == smap_has(self@, k@),
    {
        self.position(k).is_some()
    }

    /// Where an entry for `k` belongs: the first entry whose key is `k` or
    /// comes after `k`.
    fn insert_position(&self, k: &str) -> (i: usize)
        ensures
            i <= self@.len(),
            forall|j: int| 0 <= j < i ==> self@[j].0 != k@ && !seq_lt(k@, #[trigger] self@[j].0),
            i < self@.len() ==> (self@[i as int].0 == k@ || seq_lt(k@, self@[i as int].0)),
    {
        let mut i: usize = 0;
        while i < self.entries.len()
            invariant
                i <= self.entries.len(),
                forall|j: int| 0 <= j < i ==> self@[j].0 != k@ && !seq_lt(k@, #[trigger] self@[j].0),
            decreases self.entries.len() - i,
        {
            if str_eq(self.entries[i].0.as_str(), k) || str_lt(k, self.entries[i].0.as_str()) {
                return i;
            }
            i += 1;
        }
        i
    }

    /// Binds `k` to `v`, replacing an earlier binding of `k`.
    pub fn insert(&mut self, k: String, v: Value)
        ensures
            final(self)@ == smap_insert(old(self)@, k@, v@),
            smap_sorted(final(self)@),
    {
        proof { use_type_invariant(&*self); }
        let ghost m = self@;
        let i = self.insert_position(k.as_str());
        proof {
            lemma_insert_at(m, k@, v@, i as int);
            crate::laws::lemma_insert_keeps_sorted(m, k@, v@);
        }
        let ghost kv = k@;
        let ghost vv = v@;
        let mut entries: Vec<(String, Value)> = Vec::new();
        std::mem::swap(&mut entries, &mut self.entries);
        assert(entries_view(&entries) =~= m);
        if i < entries.len() && str_eq(entries[i].0.as_str(), k.as_str()) {
            entries.set(i, (k, v));
            assert(entries_view(&entries) =~= m.update(i as int, (kv, vv)));
        } else {
            entries.insert(i, (k, v));
            assert(entries_view(&entries) =~= m.insert(i as int, (kv, vv)));
        }
        self.entries = entries;
        proof { use_type_invariant(&*self); }
    }

    /// A copy of this map that owns all of its entries.
    pub fn deep_clone(&self) -> (r: ValueMap)
        ensures
            r@ == self@,
            smap_sorted(r@),
        decreases self, 0int,
    {
        let mut entries: Vec<(String, Value)> = Vec::new();
        let mut i: usize = 0;
        while i < self.entries.len()
            invariant
                i <= self.entries.len(),
                entries.len() == i,
                forall|j: int| 0 <= j < i ==> entry_view(&entries[j]) == entry_view(&self.entries[j]),
            decreases self.entries.len() - i,
        {
            let e = &self.entries[i];
            entries.push((e.0.clone(), e.1.deep_clone()));
            i += 1;
        }
        proof { use_type_invariant(self); }
        assert(entries_view(&entries) =~= self@);
        assert(smap_sorted(self@));
        ValueMap { entries }
    }
}

/// Binds each entry of `b` in turn into `a`; fails when an entry meets a
/// binding of its key to a different value.
pub open spec fn smap_combine(a: Seq<(Seq<char>, SValue)>, b: Seq<(Seq<char>, SValue)>) -> Option<Seq<(Seq<char>, SValue)>>
    decreases b.len(),
{
    if b.len() == 0 {
        Some(a)
    } else {
        match smap_get(a, b[0].0) {
            Some(old) => if !same_value(old, b[0].1) {
                None
            } else {
                smap_combine(smap_insert(a, b[0].0, b[0].1), b.drop_first())
            },
            None => smap_combine(smap_insert(a, b[0].0, b[0].1), b.drop_first()),
        }
    }
}

/// Binds each entry of `b` in turn into `a`, later bindings winning.
pub open spec fn smap_override(a: Seq<(Seq<char>, SValue)>, b: Seq<(Seq<char>, SValue)>) -> Seq<(Seq<char>, SValue)>
    decreases b.len(),
{
    if b.len() == 0 {
        a
    } else {
        smap_override(smap_insert(a, b[0].0, b[0].1), b.drop_first())
    }
}

/// Rebinds, in turn, each key of `b` that `a` already binds.
pub open spec fn smap_replace(a: Seq<(Seq<char>, SValue)>, b: Seq<(Seq<char>, SValue)>) -> Seq<(Seq<char>, SValue)>
    decreases b.len(),
{
    if b.len() == 0 {
        a
    } else if smap_has(a, b[0].0) {
        smap_replace(smap_insert(a, b[0].0, b[0].1), b.drop_first())
    } else {
        smap_replace(a, b.drop_first())
    }
}

/// Collects into `acc` the bindings in `m` of the names `ids` that are not in
/// `skip`; fails with the first such name that `m` does not bind.
pub open spec fn smap_extract(
    m: Seq<(Seq<char>, SValue)>,
    ids: Seq<Seq<char>>,
    skip: Seq<Seq<char>>,
    acc: Seq<(Seq<char>, SValue)>,
) -> Result<Seq<(Seq<char>, SValue)>, Seq<char>>
    decreases ids.len(),
{
    if ids.len() == 0 {
        Ok(acc)
    } else if skip.contains(ids[0]) {
        smap_extract(m, ids.drop_first(), skip, acc)
    } else {
        match smap_get(m, ids[0]) {
            None => Err(ids[0]),
            Some(v) => smap_extract(m, ids.drop_first(), skip, smap_insert(acc, ids[0], v)),
        }
    }
}

impl ValueMap {
    /// Removes every entry.
    pub fn clear(&mut self)
        ensures
            final(self)@ == Seq::<(Seq<char>, SValue)>::empty(),
            smap_sorted(final(self)@),
    {
        self.entries = Vec::new();
        assert(self@ =~= Seq::<(Seq<char>, SValue)>::empty());
    }

    /// The keys, in increasing order.
    pub fn keys(&self) -> (r: Vec<String>)
        ensures
            r.len() == self@.len(),
            forall|i: int| 0 <= i < r.len() ==> r[i]@ == #[trigger] self@[i].0,
            smap_sorted(self@),
            forall|i: int, j: int| 0 <= i < j < r.len() ==> seq_lt(#[trigger] r[i]@, #[trigger] r[j]@),
    {
        proof { use_type_invariant(self); }
        let mut r: Vec<String> = Vec::new();
        let mut i: usize = 0;
        while i < self.entries.len()
            invariant
                i <= self.entries.len(),
                r.len() == i,
                forall|j: int| 0 <= j < i ==> r[j]@ == #[trigger] self@[j].0,
            decreases self.entries.len() - i,
        {
            r.push(self.entries[i].0.clone());
            i += 1;
        }
        assert forall|i: int, j: int| 0 <= i < j < r.len() implies seq_lt(#[trigger] r[i]@, #[trigger] r[j]@) by {
            assert(r[i]@ == self@[i].0 && r[j]@ == self@[j].0);
        }
        r
    }

    /// The map with every entry of `other` bound in turn, unless one of them
    /// meets a different value already bound to its key.
    pub fn combine(&self, other: &ValueMap) -> (r: Option<ValueMap>)
        ensures
            match r {
                Some(m) => smap_combine(self@, other@) == Some(m@) && smap_sorted(m@),
                None => smap_combine(self@, other@).is_none(),
            },
    {
        let mut acc = self.deep_clone();
        let mut i: usize = 0;
        assert(other@.skip(0) =~= other@);
        while i < other.entries.len()
            invariant
                i <= other.entries.len(),
                smap_combine(self@, other@) == smap_combine(acc@, other@.skip(i as int)),
            decreases other.entries.len() - i,
        {
            let (id, value) = (&other.entries[i].0, &other.entries[i].1);
            let ghost rest = other@.skip(i as int);
            assert(rest[0] == other@[i as int]);
            assert(rest.drop_first() =~= other@.skip(i + 1));
            match acc.get(id.as_str()) {
                Some(old) => {
                    if !value_eq(old, value) {
                        return None;
                    }
                },
                None => {},
            }
            acc.insert(id.clone(), value.deep_clone());
            i += 1;
        }
        proof { use_type_invariant(&acc); }
        Some(acc)
    }

    /// The map with every entry of `other` bound in turn, overriding.
    pub fn combine_with_override(&self, other: &ValueMap) -> (r: ValueMap)
        ensures
            r@ == smap_override(self@, other@),
            smap_sorted(r@),
    {
        let mut acc = self.deep_clone();
        let mut i: usize = 0;
        assert(other@.skip(0) =~= other@);
        while i < other.entries.len()
            invariant
                i <= other.entries.len(),
                smap_override(self@, other@) == smap_override(acc@, other@.skip(i as int)),
            decreases other.entries.len() - i,
        {
            let ghost rest = other@.skip(i as int);
            assert(rest[0] == other@[i as int]);
            assert(rest.drop_first() =~= other@.skip(i + 1));
            acc.insert(other.entries[i].0.clone(), other.entries[i].1.deep_clone());
            i += 1;
        }
        proof { use_type_invariant(&acc); }
        acc
    }

    /// Rebinds each key of `entries` that this map binds already.
    pub fn replace(&mut self, entries: &ValueMap)
        ensures
            final(self)@ == smap_replace(old(self)@, entries@),
            smap_sorted(final(self)@),
    {
        let ghost start = self@;
        let mut i: usize = 0;
        assert(entries@.skip(0) =~= entries@);
        while i < entries.entries.len()
            invariant
                i <= entries.entries.len(),
                smap_replace(start, entries@) == smap_replace(self@, entries@.skip(i as int)),
            decreases entries.entries.len() - i,
        {
            let ghost rest = entries@.skip(i as int);
            assert(rest[0] == entries@[i as int]);
            assert(rest.drop_first() =~= entries@.skip(i + 1));
            if self.contains_key(entries.entries[i].0.as_str()) {
                self.insert(entries.entries[i].0.clone(), entries.entries[i].1.deep_clone());
            }
            i += 1;
        }
        proof { use_type_invariant(&*self); }
    }

    /// The bindings of the names in `identifiers` that are not in
    /// `exceptions`, or the first such name that this map does not bind.
    pub fn extract_except(&self, identifiers: &Vec<Identifier>, exceptions: &Vec<Identifier>) -> (r: Result<ValueMap, Identifier>)
        ensures
            match r {
                Ok(m) => smap_extract(self@, ids_view(identifiers), ids_view(exceptions), Seq::empty()) == Ok::<_, Seq<char>>(m@) && smap_sorted(m@),
                Err(id) => smap_extract(self@, ids_view(identifiers), ids_view(exceptions), Seq::empty()) == Err::<Seq<(Seq<char>, SValue)>, _>(id@),
            },
    {
        let mut acc = ValueMap::new();
        let mut i: usize = 0;
        let ghost ids = ids_view(identifiers);
        let ghost skip = ids_view(exceptions);
        assert(ids.skip(0) =~= ids);
        while i < identifiers.len()
            invariant
                i <= identifiers.len(),
                ids == ids_view(identifiers),
                skip == ids_view(exceptions),
                smap_extract(self@, ids, skip, Seq::empty()) == smap_extract(self@, ids.skip(i as int), skip, acc@),
            decreases identifiers.len() - i,
        {
            let ghost rest = ids.skip(i as int);
            assert(rest[0] == identifiers[i as int]@);
            assert(rest.drop_first() =~= ids.skip(i + 1));
            let id = &identifiers[i];
            if !ids_contain(exceptions, id.name.as_str()) {
                match self.get(id.name.as_str()) {
                    None => {
                        return Err(id.deep_clone());
                    },
                    Some(v) => {
                        acc.insert(id.name.clone(), v.deep_clone());
                    },
                }
            }
            i += 1;
        }
        proof { use_type_invariant(&acc); }
        Ok(acc)
    }
}

// ---------------------------------------------------------------------------
// Types and conversions.
// ---------------------------------------------------------------------------

pub open spec fn svalue_type(v: SValue) -> ValueType {
    match v {
        SValue::Null => ValueType::Null,
        SValue::String(..) => ValueType::String,
        SValue::Integer(..) => ValueType::Integer,
        SValue::Boolean(..) => ValueType::Boolean,
        SValue::Array(..) => ValueType::Array,
        SValue::Object(..) => ValueType::Object,
        SValue::Type(..) => ValueType::Type,
        SValue::Lambda(..) => ValueType::Lambda,
    }
}

pub open spec fn char_strings(s: Seq<char>) -> Seq<SValue> {
    Seq::new(s.len(), |i: int| SValue::String(seq![s[i]]))
}

/// What `Value::convert` gives for a value and a target type.
pub open spec fn convert_spec(v: SValue, t: ValueType) -> Option<SValue> {
    if svalue_type(v) == t {
        Some(v)
    } else {
        match (v, t) {
            (SValue::Null, ValueType::String) => Some(SValue::String(seq!['n', 'u', 'l', 'l'])),
            (SValue::Null, ValueType::Integer) => Some(SValue::Integer(0)),
            (SValue::Null, ValueType::Boolean) => Some(SValue::Boolean(false)),
            (SValue::Null, ValueType::Array) => Some(SValue::Array(Seq::empty())),
            (SValue::Null, ValueType::Object) => Some(SValue::Object(Seq::empty())),
            (_, ValueType::Type) => Some(SValue::Type(svalue_type(v))),
            (SValue::Type(x), ValueType::String) => Some(SValue::String(value_type_name(x))),
            (SValue::Object(o), ValueType::Array) => Some(SValue::Array(smap_values(o))),
            (SValue::Object(o), ValueType::Boolean) => Some(SValue::Boolean(o.len() != 0)),
            (SValue::Array(a), ValueType::Boolean) => Some(SValue::Boolean(a.len() != 0)),
            (SValue::String(s), ValueType::Boolean) => Some(SValue::Boolean(s.len() != 0)),
            (SValue::String(s), ValueType::Array) => Some(SValue::Array(char_strings(s))),
            (SValue::Integer(i), ValueType::String) => Some(SValue::String(int_decimal(i as int))),
            (SValue::Integer(i), ValueType::Boolean) => Some(SValue::Boolean(i != 0)),
            (SValue::Boolean(b), ValueType::String) => Some(SValue::String(bool_text(b))),
            (SValue::Boolean(b), ValueType::Integer) => Some(SValue::Integer(if b { 1 } else { 0 })),
            (SValue::Array(a), ValueType::Integer) => Some(SValue::Integer(a.len() as i64)),
            (SValue::Object(o), ValueType::Integer) => Some(SValue::Integer(o.len() as i64)),
            _ => None,
        }
    }
}

fn clone_values(v: &Vec<Value>) -> (r: Vec<Value>)
    ensures
        values_view(&r) == values_view(v),
    decreases v, 0int,
{
    let mut r: Vec<Value> = Vec::new();
    let mut i: usize = 0;
    while i < v.len()
        invariant
            i <= v.len(),
            r.len() == i,
            forall|j: int| 0 <= j < i ==> value_view(&r[j]) == value_view(&v[j]),
        decreases v.len() - i,
    {
        r.push(v[i].deep_clone());
        i += 1;
    }
    assert(values_view(&r) =~= values_view(v));
    r
}

impl Value {
    /// The runtime type of this value.
    pub fn get_type(&self) -> (r: ValueType)
        ensures
            r == svalue_type(self@),
    {
        match self {
            Value::Null => ValueType::Null,
            Value::String(..) => ValueType::String,
            Value::Integer(..) => ValueType::Integer,
            Value::Boolean(..) => ValueType::Boolean,
            Value::Array(..) => ValueType::Array,
            Value::Object(..) => ValueType::Object,
            Value::Type(..) => ValueType::Type,
            Value::Lambda(..) => ValueType::Lambda,
        }
    }

    /// A copy of this value that owns all of its parts.
    pub fn deep_clone(&self) -> (r: Value)
        ensures
            r@ == self@,
        decreases self, 0int,
    {
        match self {
            Value::Null => Value::Null,
            Value::String(s) => Value::String(s.clone()),
            Value::Integer(i) => Value::Integer(*i),
            Value::Boolean(b) => Value::Boolean(*b),
            Value::Array(a) => Value::Array(clone_values(a)),
            Value::Object(o) => Value::Object(o.deep_clone()),
            Value::Type(t) => Value::Type(*t),
            Value::Lambda(e, p, b) => Value::Lambda(e.deep_clone(), p.deep_clone(), b.deep_clone()),
        }
    }

    /// This value converted to the given type, where a conversion exists.
    pub fn convert(&self, specified_type: ValueType) -> (r: Option<Value>)
        ensures
            match r {
                Some(x) => convert_spec(self@, specified_type) == Some(x@),
                None => convert_spec(self@, specified_type).is_none(),
            },
    {
        if self.get_type() == specified_type {
            return Some(self.deep_clone());
        }
        match (self, specified_type) {
            (Value::Null, ValueType::String) => {
                let s = "null";
                proof { reveal_strlit("null"); }
                let r = Value::String(s.to_string());
                assert(s@ =~= seq!['n', 'u', 'l', 'l']);
                assert(convert_spec(self@, specified_type) == Some(r@));
                Some(r)
            },
            (Value::Null, ValueType::Integer) => {
                let r = Value::Integer(0);
                assert(convert_spec(self@, specified_type) == Some(r@));
                Some(r)
            },
            (Value::Null, ValueType::Boolean) => {
                let r = Value::Boolean(false);
                assert(convert_spec(self@, specified_type) == Some(r@));
                Some(r)
            },
            (Value::Null, ValueType::Array) => {
                let empty: Vec<Value> = Vec::new();
                assert(values_view(&empty) =~= Seq::<SValue>::empty());
                let r = Value::Array(empty);
                assert(convert_spec(self@, specified_type) == Some(r@));
                Some(r)
            },
            (Value::Null, ValueType::Object) => {
                let r = Value::Object(ValueMap::new());
                assert(convert_spec(self@, specified_type) == Some(r@));
                Some(r)
            },
            (_, ValueType::Type) => {
                let r = Value::Type(self.get_type());
                assert(convert_spec(self@, specified_type) == Some(r@));
                Some(r)
            },
            (Value::Type(t), ValueType::String) => {
                let r = Value::String(t.name());
                assert(convert_spec(self@, specified_type) == Some(r@));
                Some(r)
            },
            (Value::Object(o), ValueType::Array) => {
                let mut vals: Vec<Value> = Vec::new();
                let mut i: usize = 0;
                while i < o.entries.len()
                    invariant
                        i <= o.entries.len(),
                        vals.len() == i,
                        forall|j: int| 0 <= j < i ==> value_view(&vals[j]) == o@[j].1,
                    decreases o.entries.len() - i,
                {
                    vals.push(o.entries[i].1.deep_clone());
                    i += 1;
                }
                assert(values_view(&vals) =~= smap_values(o@));
                let r = Value::Array(vals);
                assert(convert_spec(self@, specified_type) == Some(r@));
                Some(r)
            },
            (Value::Object(o), ValueType::Boolean) => {
                let r = Value::Boolean(!o.is_empty());
                assert(convert_spec(self@, specified_type) == Some(r@));
                Some(r)
            },
            (Value::Array(a), ValueType::Boolean) => {
                let r = Value::Boolean(a.len() != 0);
                assert(convert_spec(self@, specified_type) == Some(r@));
                Some(r)
            },
            (Value::String(s), ValueType::Boolean) => {
                let r = Value::Boolean(s.as_str().unicode_len() != 0);
                assert(convert_spec(self@, specified_type) == Some(r@));
                Some(r)
            },
            (Value::String(s), ValueType::Array) => {
                let cs = chars_of(s.as_str());
                let mut vals: Vec<Value> = Vec::new();
                let mut i: usize = 0;
                while i < cs.len()
                    invariant
                        i <= cs.len(),
                        vals.len() == i,
                        forall|j: int| 0 <= j < i ==> value_view(&vals[j]) == SValue::String(seq![cs@[j]]),
                    decreases cs.len() - i,
                {
                    let mut one: Vec<char> = Vec::new();
                    one.push(cs[i]);
                    assert(one@ =~= seq![cs@[i as int]]);
                    vals.push(Value::String(string_from_chars(&one)));
                    i += 1;
                }
                assert(values_view(&vals) =~= char_strings(s@));
                let r = Value::Array(vals);
                assert(convert_spec(self@, specified_type) == Some(r@));
                Some(r)
            },
            (Value::Integer(i), ValueType::String) => {
                let r = Value::String(i64_to_string(*i));
                assert(convert_spec(self@, specified_type) == Some(r@));
                Some(r)
            },
            (Value::Integer(i), ValueType::Boolean) => {
                let r = Value::Boolean(*i != 0);
                assert(convert_spec(self@, specified_type) == Some(r@));
                Some(r)
            },
            (Value::Boolean(b), ValueType::String) => {
                let r = Value::String(bool_to_string(*b));
                assert(convert_spec(self@, specified_type) == Some(r@));
                Some(r)
            },
            (Value::Boolean(b), ValueType::Integer) => {
                let r = Value::Integer(if *b { 1 } else { 0 });
                assert(convert_spec(self@, specified_type) == Some(r@));
                Some(r)
            },
            (Value::Array(a), ValueType::Integer) => {
                let r = Value::Integer(a.len() as i64);
                assert(convert_spec(self@, specified_type) == Some(r@));
                Some(r)
            },
            (Value::Object(o), ValueType::Integer) => {
                let r = Value::Integer(o.len() as i64);
                assert(convert_spec(self@, specified_type) == Some(r@));
                Some(r)
            },
            _ => {
                assert(convert_spec(self@, specified_type).is_none());
                None
            },
        }
    }
}

// ---------------------------------------------------------------------------
// Structural equality.
// ---------------------------------------------------------------------------

fn values_eq(a: &Vec<Value>, b: &Vec<Value>) -> (r: bool)
    ensures
        r == (strip_values(values_view(a)) == strip_values(values_view(b))),
    decreases a, 0int,
{
    let ghost av = values_view(a);
    let ghost bv = values_view(b);
    if a.len() != b.len() {
        assert(strip_values(av).len() != strip_values(bv).len());
        return false;
    }
    let mut i: usize = 0;
    while i < a.len()
        invariant
            i <= a.len(),
            a.len() == b.len(),
            av == values_view(a),
            bv == values_view(b),
            forall|j: int| 0 <= j < i ==> strip_value(#[trigger] av[j]) == strip_value(bv[j]),
        decreases a.len() - i,
    {
        assert(av[i as int] == value_view(&a[i as int]));
        assert(bv[i as int] == value_view(&b[i as int]));
        if !value_eq(&a[i], &b[i]) {
            assert(strip_values(av)[i as int] != strip_values(bv)[i as int]);
            return false;
        }
        i += 1;
    }
    assert(strip_values(av) =~= strip_values(bv));
    true
}

/// Whether two maps hold equal entries in the same order.
pub fn map_eq(a: &ValueMap, b: &ValueMap) -> (r: bool)
    ensures
        r == (strip_entries(a@) == strip_entries(b@)),
    decreases a, 0int,
{
    if a.entries.len() != b.entries.len() {
        assert(strip_entries(a@).len() != strip_entries(b@).len());
        return false;
    }
    let mut i: usize = 0;
    while i < a.entries.len()
        invariant
            i <= a.entries.len(),
            a.entries.len() == b.entries.len(),
            forall|j: int| 0 <= j < i ==> (#[trigger] a@[j]).0 == b@[j].0 && strip_value(a@[j].1) == strip_value(b@[j].1),
        decreases a.entries.len() - i,
    {
        let x = &a.entries[i];
        let y = &b.entries[i];
        assert(a@[i as int] == entry_view(x));
        assert(b@[i as int] == entry_view(y));
        if !(x.0 == y.0 && value_eq(&x.1, &y.1)) {
            assert(strip_entries(a@)[i as int] != strip_entries(b@)[i as int]);
            return false;
        }
        i += 1;
    }
    assert(strip_entries(a@) =~= strip_entries(b@));
    true
}

/// Whether two values are equal, as `==` compares them.
pub fn value_eq(a: &Value, b: &Value) -> (r: bool)
    ensures
        r == same_value(a@, b@),
    decreases a, 0int,
{
    match (a, b) {
        (Value::Null, Value::Null) => true,
        (Value::String(x), Value::String(y)) => *x == *y,
        (Value::Integer(x), Value::Integer(y)) => *x == *y,
        (Value::Boolean(x), Value::Boolean(y)) => *x == *y,
        (Value::Array(x), Value::Array(y)) => values_eq(x, y),
        (Value::Object(x), Value::Object(y)) => map_eq(x, y),
        (Value::Type(x), Value::Type(y)) => *x == *y,
        (Value::Lambda(e1, p1, b1), Value::Lambda(e2, p2, b2)) => {
            map_eq(&e1.bindings, &e2.bindings) && pattern_eq(p1, p2) && expr_eq(b1, b2)
        },
        _ => false,
    }
}

impl LambdaBinding {
    /// A binding that captures nothing.
    pub fn new() -> (r: LambdaBinding)
        ensures
            r@ == Seq::<(Seq<char>, SValue)>::empty(),
    {
        LambdaBinding { bindings: ValueMap::new() }
    }

    pub fn deep_clone(&self) -> (r: LambdaBinding)
        ensures
            r@ == self@,
        decreases self, 0int,
    {
        LambdaBinding { bindings: self.bindings.deep_clone() }
    }
}

impl ValueBag {
    pub fn new(values: Vec<Value>) -> (r: ValueBag)
        ensures
            r.values == values,
    {
        ValueBag { values }
    }
}

} // verus!
