//! Source text as the parsers read it, and its lexical pieces: blanks,
//! fixed words, identifiers and literals.
use vstd::prelude::*;
use crate::value_type::ValueType;
use crate::identifier::Identifier;
use crate::literal::{Literal, SLiteral};
use crate::syntax::location::Location;
use crate::strings::{chars_of, parse_i64_spec, parse_i64, string_from_chars};

verus! {

/// The number of bytes that UTF-8 takes for a character.
pub open spec fn char_width(c: char) -> nat {
    if (c as u32) < 0x80 { 1 } else if (c as u32) < 0x800 { 2 } else if (c as u32) < 0x10000 { 3 } else { 4 }
}

/// The number of bytes that UTF-8 takes for the first `i` characters.
pub open spec fn byte_offset(s: Seq<char>, i: nat) -> nat
    decreases i,
{
    if i == 0 || i > s.len() { 0 } else { byte_offset(s, (i - 1) as nat) + char_width(s[i - 1]) }
}

/// The byte offset of position `i`, or `usize::MAX` where it does not fit.
pub open spec fn offset_at(s: Seq<char>, i: nat) -> usize {
    if byte_offset(s, i) <= usize::MAX { byte_offset(s, i) as usize } else { usize::MAX }
}

/// The span in bytes between two positions.
pub open spec fn span(s: Seq<char>, start: nat, end: nat) -> Location {
    Location { start: offset_at(s, start), end: offset_at(s, end) }
}

/// The characters of a source text, with the byte offset at which each
/// begins (and, last, the length in bytes).
pub struct Input {
    pub chars: Vec<char>,
    pub offsets: Vec<usize>,
}

impl Input {
    pub open spec fn wf(&self) -> bool {
        &&& self.offsets.len() == self.chars.len() + 1
        &&& forall|i: int| 0 <= i <= self.chars.len() ==> #[trigger] self.offsets[i] == offset_at(self.chars@, i as nat)
    }

    pub open spec fn text(&self) -> Seq<char> {
        self.chars@
    }

    /// The input for `source`.
    pub fn new(source: &str) -> (r: Input)
        ensures
            r.wf(),
            r.chars@ == source@,
    {
        let chars = chars_of(source);
        let mut offsets: Vec<usize> = Vec::new();
        offsets.push(0);
        let mut i: usize = 0;
        while i < chars.len()
            invariant
                i <= chars.len(),
                offsets.len() == i + 1,
                forall|k: int| 0 <= k <= i ==> #[trigger] offsets[k] == offset_at(chars@, k as nat),
            decreases chars.len() - i,
        {
            let c = chars[i] as u32;
            let width: usize = if c < 0x80 { 1 } else if c < 0x800 { 2 } else if c < 0x10000 { 3 } else { 4 };
            assert(width == char_width(chars@[i as int]));
            assert(byte_offset(chars@, (i + 1) as nat) == byte_offset(chars@, i as nat) + width);
            let last = offsets[i];
            let next = match last.checked_add(width) {
                Some(x) => x,
                None => usize::MAX,
            };
            offsets.push(next);
            i += 1;
        }
        Input { chars, offsets }
    }

    pub fn len(&self) -> (r: usize)
        ensures
            r == self.chars.len(),
    {
        self.chars.len()
    }

    /// The span between two positions, in bytes.
    pub fn location(&self, start: usize, end: usize) -> (r: Location)
        requires
            self.wf(),
            start <= self.chars.len(),
            end <= self.chars.len(),
        ensures
            r == span(self.chars@, start as nat, end as nat),
    {
        Location::new(self.offsets[start], self.offsets[end])
    }

    /// The text between two positions.
    pub fn slice(&self, start: usize, end: usize) -> (r: String)
        requires
            start <= end <= self.chars.len(),
        ensures
            r@ == self.chars@.subrange(start as int, end as int),
    {
        let mut v: Vec<char> = Vec::new();
        let mut i = start;
        while i < end
            invariant
                start <= i <= end <= self.chars.len(),
                v@ == self.chars@.subrange(start as int, i as int),
            decreases end - i,
        {
            v.push(self.chars[i]);
            i += 1;
            assert(v@ =~= self.chars@.subrange(start as int, i as int));
        }
        string_from_chars(&v)
    }
}

// ---------------------------------------------------------------------------
// Blanks and fixed words.
// ---------------------------------------------------------------------------

/// Space, tab, carriage return or line feed.
pub open spec fn is_multispace(c: char) -> bool {
    c == ' ' || c == '\t' || c == '\r' || c == '\n'
}

/// Space or tab.
pub open spec fn is_space(c: char) -> bool {
    c == ' ' || c == '\t'
}

/// The position after the blanks (of any kind) from `pos` on.
pub open spec fn skip_multispace(s: Seq<char>, pos: nat) -> nat
    decreases s.len() - pos,
{
    if pos < s.len() && is_multispace(s[pos as int]) {
        skip_multispace(s, pos + 1)
    } else {
        pos
    }
}

/// The position after the spaces and tabs from `pos` on.
pub open spec fn skip_space(s: Seq<char>, pos: nat) -> nat
    decreases s.len() - pos,
{
    if pos < s.len() && is_space(s[pos as int]) {
        skip_space(s, pos + 1)
    } else {
        pos
    }
}

/// `t` occurs in `s` at `pos`.
pub open spec fn tag_at(s: Seq<char>, pos: nat, t: Seq<char>) -> bool {
    pos + t.len() <= s.len() && s.subrange(pos as int, (pos + t.len()) as int) == t
}

/// The position after `t`, when `t` occurs at `pos`.
pub open spec fn tag_end(s: Seq<char>, pos: nat, t: Seq<char>) -> Option<nat> {
    if tag_at(s, pos, t) { Some(pos + t.len()) } else { None }
}

/// The position after `t` and the blanks that follow it, when `t` occurs
/// after the blanks at `pos`.
pub open spec fn ws_tag_at(s: Seq<char>, pos: nat, t: Seq<char>) -> Option<nat> {
    let p0 = skip_multispace(s, pos);
    if tag_at(s, p0, t) { Some(skip_multispace(s, p0 + t.len())) } else { None }
}

/// A position as a natural number.
pub open spec fn opt_pos(r: Option<usize>) -> Option<nat> {
    match r {
        Some(p) => Some(p as nat),
        None => None,
    }
}

pub proof fn lemma_skip_multispace_bounds(s: Seq<char>, pos: nat)
    requires
        pos <= s.len(),
    ensures
        pos <= skip_multispace(s, pos) <= s.len(),
    decreases s.len() - pos,
{
    if pos < s.len() && is_multispace(s[pos as int]) {
        lemma_skip_multispace_bounds(s, pos + 1);
    }
}

pub proof fn lemma_skip_space_bounds(s: Seq<char>, pos: nat)
    requires
        pos <= s.len(),
    ensures
        pos <= skip_space(s, pos) <= s.len(),
    decreases s.len() - pos,
{
    if pos < s.len() && is_space(s[pos as int]) {
        lemma_skip_space_bounds(s, pos + 1);
    }
}

/// The spaces and tabs from `pos` on reach the end exactly when every
/// character from `pos` on is a space or a tab.
pub proof fn lemma_skip_space_all(s: Seq<char>, pos: nat)
    requires
        pos <= s.len(),
    ensures
        skip_space(s, pos) == s.len() <==> (forall|i: int| pos <= i < s.len() ==> is_space(#[trigger] s[i])),
    decreases s.len() - pos,
{
    if pos < s.len() && is_space(s[pos as int]) {
        lemma_skip_space_all(s, pos + 1);
    }
    if pos < s.len() && !is_space(s[pos as int]) {
        assert(!is_space(s[pos as int]));
    }
}

/// The position after the blanks from `pos` on.
pub fn multispace0(inp: &Input, pos: usize) -> (r: usize)
    requires
        pos <= inp.chars.len(),
    ensures
        r == skip_multispace(inp.chars@, pos as nat),
        pos <= r <= inp.chars.len(),
{
    let mut p = pos;
    proof {
        lemma_skip_multispace_bounds(inp.chars@, pos as nat);
    }
    while p < inp.chars.len() && (inp.chars[p] == ' ' || inp.chars[p] == '\t' || inp.chars[p] == '\r' || inp.chars[p] == '\n')
        invariant
            pos <= p <= inp.chars.len(),
            skip_multispace(inp.chars@, pos as nat) == skip_multispace(inp.chars@, p as nat),
        decreases inp.chars.len() - p,
    {
        p += 1;
    }
    p
}

/// The position after the spaces and tabs from `pos` on.
pub fn space0(inp: &Input, pos: usize) -> (r: usize)
    requires
        pos <= inp.chars.len(),
    ensures
        r == skip_space(inp.chars@, pos as nat),
        pos <= r <= inp.chars.len(),
{
    let mut p = pos;
    proof {
        lemma_skip_space_bounds(inp.chars@, pos as nat);
    }
    while p < inp.chars.len() && (inp.chars[p] == ' ' || inp.chars[p] == '\t')
        invariant
            pos <= p <= inp.chars.len(),
            skip_space(inp.chars@, pos as nat) == skip_space(inp.chars@, p as nat),
        decreases inp.chars.len() - p,
    {
        p += 1;
    }
    p
}

/// The position after `t`, when `t` occurs at `pos`.
pub fn tag(inp: &Input, pos: usize, t: &str) -> (r: Option<usize>)
    requires
        pos <= inp.chars.len(),
    ensures
        match r {
            Some(p) => tag_at(inp.chars@, pos as nat, t@) && p == pos + t@.len(),
            None => !tag_at(inp.chars@, pos as nat, t@),
        },
        opt_pos(r) == tag_end(inp.chars@, pos as nat, t@),
{
    let n = t.unicode_len();
    if n > inp.chars.len() - pos {
        return None;
    }
    let mut i: usize = 0;
    while i < n
        invariant
            n == t@.len(),
            pos + n <= inp.chars.len(),
            i <= n,
            forall|j: int| 0 <= j < i ==> inp.chars@[pos + j] == t@[j],
        decreases n - i,
    {
        if inp.chars[pos + i] != t.get_char(i) {
            assert(inp.chars@.subrange(pos as int, pos + n)[i as int] != t@[i as int]);
            return None;
        }
        i += 1;
    }
    assert(inp.chars@.subrange(pos as int, pos + n) =~= t@);
    Some(pos + n)
}

/// `t` surrounded by optional blanks: the position after the blanks that
/// follow it.
pub fn ws_tag(inp: &Input, pos: usize, t: &str) -> (r: Option<usize>)
    requires
        pos <= inp.chars.len(),
    ensures
        match r {
            Some(p) => tag_at(inp.chars@, skip_multispace(inp.chars@, pos as nat), t@)
                && p == skip_multispace(inp.chars@, skip_multispace(inp.chars@, pos as nat) + t@.len()),
            None => !tag_at(inp.chars@, skip_multispace(inp.chars@, pos as nat), t@),
        },
        r matches Some(p) ==> pos + t@.len() <= p <= inp.chars.len(),
        opt_pos(r) == ws_tag_at(inp.chars@, pos as nat, t@),
{
    let p1 = multispace0(inp, pos);
    match tag(inp, p1, t) {
        Some(p2) => Some(multispace0(inp, p2)),
        None => None,
    }
}

// ---------------------------------------------------------------------------
// Identifiers.
// ---------------------------------------------------------------------------

pub open spec fn is_ascii_alpha(c: char) -> bool {
    ('a' <= c && c <= 'z') || ('A' <= c && c <= 'Z')
}

pub open spec fn is_ascii_digit(c: char) -> bool {
    '0' <= c && c <= '9'
}

pub open spec fn is_name_char(c: char) -> bool {
    is_ascii_alpha(c) || is_ascii_digit(c) || c == '_'
}

/// The position after the name characters from `pos` on.
pub open spec fn name_chars_end(s: Seq<char>, pos: nat) -> nat
    decreases s.len() - pos,
{
    if pos < s.len() && is_name_char(s[pos as int]) {
        name_chars_end(s, pos + 1)
    } else {
        pos
    }
}

/// The end of a name at `pos`: a letter followed by letters, digits and
/// underscores, or an underscore followed by at least one of them.
pub open spec fn name_end(s: Seq<char>, pos: nat) -> Option<nat> {
    if pos < s.len() && is_ascii_alpha(s[pos as int]) {
        Some(name_chars_end(s, pos + 1))
    } else if pos + 1 < s.len() && s[pos as int] == '_' && is_name_char(s[(pos + 1) as int]) {
        Some(name_chars_end(s, pos + 1))
    } else {
        None
    }
}

/// Words that cannot be written as plain identifiers.
pub open spec fn is_keyword(w: Seq<char>) -> bool {
    w == "where"@ || w == "into"@ || w == "limit"@ || w == "with"@
}

/// An identifier at `pos`: a name that is not a keyword, or `#` followed by
/// any name.
pub open spec fn identifier_spec(s: Seq<char>, pos: nat) -> Option<(Seq<char>, nat)> {
    if pos < s.len() && s[pos as int] == '#' {
        match name_end(s, pos + 1) {
            Some(e) => Some((s.subrange((pos + 1) as int, e as int), e)),
            None => None,
        }
    } else {
        match name_end(s, pos) {
            Some(e) => if is_keyword(s.subrange(pos as int, e as int)) {
                None
            } else {
                Some((s.subrange(pos as int, e as int), e))
            },
            None => None,
        }
    }
}

proof fn lemma_name_chars_end_bounds(s: Seq<char>, pos: nat)
    requires
        pos <= s.len(),
    ensures
        pos <= name_chars_end(s, pos) <= s.len(),
    decreases s.len() - pos,
{
    if pos < s.len() && is_name_char(s[pos as int]) {
        lemma_name_chars_end_bounds(s, pos + 1);
    }
}

fn name_chars_end_exec(inp: &Input, pos: usize) -> (r: usize)
    requires
        pos <= inp.chars.len(),
    ensures
        r == name_chars_end(inp.chars@, pos as nat),
        pos <= r <= inp.chars.len(),
{
    proof {
        lemma_name_chars_end_bounds(inp.chars@, pos as nat);
    }
    let mut p = pos;
    while p < inp.chars.len() && (('a' <= inp.chars[p] && inp.chars[p] <= 'z') || ('A' <= inp.chars[p] && inp.chars[p] <= 'Z')
        || ('0' <= inp.chars[p] && inp.chars[p] <= '9') || inp.chars[p] == '_')
        invariant
            pos <= p <= inp.chars.len(),
            name_chars_end(inp.chars@, pos as nat) == name_chars_end(inp.chars@, p as nat),
        decreases inp.chars.len() - p,
    {
        p += 1;
    }
    p
}

fn name_end_exec(inp: &Input, pos: usize) -> (r: Option<usize>)
    requires
        pos <= inp.chars.len(),
    ensures
        match r {
            Some(e) => name_end(inp.chars@, pos as nat) == Some(e as nat) && pos < e <= inp.chars.len(),
            None => name_end(inp.chars@, pos as nat).is_none(),
        },
{
    if pos < inp.chars.len() && (('a' <= inp.chars[pos] && inp.chars[pos] <= 'z') || ('A' <= inp.chars[pos] && inp.chars[pos] <= 'Z')) {
        Some(name_chars_end_exec(inp, pos + 1))
    } else if pos < inp.chars.len() && pos + 1 < inp.chars.len() && inp.chars[pos] == '_' && (('a' <= inp.chars[pos + 1] && inp.chars[pos + 1] <= 'z')
        || ('A' <= inp.chars[pos + 1] && inp.chars[pos + 1] <= 'Z') || ('0' <= inp.chars[pos + 1] && inp.chars[pos + 1] <= '9')
        || inp.chars[pos + 1] == '_') {
        let e = name_chars_end_exec(inp, pos + 1);
        Some(e)
    } else {
        None
    }
}

fn is_keyword_exec(w: &str) -> (r: bool)
    ensures
        r == is_keyword(w@),
{
    crate::strings::str_eq(w, "where") || crate::strings::str_eq(w, "into")
        || crate::strings::str_eq(w, "limit") || crate::strings::str_eq(w, "with")
}

/// The identifier at `pos`, and the position after it.
pub fn identifier(inp: &Input, pos: usize) -> (r: Option<(Identifier, usize)>)
    requires
        pos <= inp.chars.len(),
    ensures
        match r {
            Some((id, p)) => identifier_spec(inp.chars@, pos as nat) == Some((id@, p as nat)) && pos < p <= inp.chars.len(),
            None => identifier_spec(inp.chars@, pos as nat).is_none(),
        },
{
    if pos < inp.chars.len() && inp.chars[pos] == '#' {
        match name_end_exec(inp, pos + 1) {
            Some(e) => Some((Identifier::new_owned(inp.slice(pos + 1, e)), e)),
            None => None,
        }
    } else {
        match name_end_exec(inp, pos) {
            Some(e) => {
                let w = inp.slice(pos, e);
                if is_keyword_exec(w.as_str()) {
                    None
                } else {
                    Some((Identifier::new_owned(w), e))
                }
            },
            None => None,
        }
    }
}

// ---------------------------------------------------------------------------
// Literals.
// ---------------------------------------------------------------------------

/// The position after the decimal digits from `pos` on.
pub open spec fn digits_end(s: Seq<char>, pos: nat) -> nat
    decreases s.len() - pos,
{
    if pos < s.len() && is_ascii_digit(s[pos as int]) {
        digits_end(s, pos + 1)
    } else {
        pos
    }
}

/// The end of an integer at `pos`: an optional sign and at least one digit,
/// whose value fits in an `i64`.
pub open spec fn number_end(s: Seq<char>, pos: nat) -> Option<nat> {
    let start = if pos < s.len() && (s[pos as int] == '+' || s[pos as int] == '-') { pos + 1 } else { pos };
    let e = digits_end(s, start);
    if e > start && parse_i64_spec(s.subrange(pos as int, e as int)).is_some() {
        Some(e)
    } else {
        None
    }
}

/// The position after the first `"` from `pos` on, if there is one.
pub open spec fn quote_end(s: Seq<char>, pos: nat) -> Option<nat>
    decreases s.len() - pos,
{
    if pos >= s.len() {
        None
    } else if s[pos as int] == '"' {
        Some(pos)
    } else {
        quote_end(s, pos + 1)
    }
}

pub open spec fn type_names() -> Seq<(Seq<char>, ValueType)> {
    seq![
        ("Type"@, ValueType::Type),
        ("Null"@, ValueType::Null),
        ("Boolean"@, ValueType::Boolean),
        ("Integer"@, ValueType::Integer),
        ("Array"@, ValueType::Array),
        ("Object"@, ValueType::Object),
        ("String"@, ValueType::String),
        ("Lambda"@, ValueType::Lambda),
    ]
}

/// The type name at `pos`, trying the names in the order of `type_names`.
pub open spec fn type_name_at(s: Seq<char>, pos: nat, k: nat) -> Option<(ValueType, nat)>
    decreases 8 - k,
{
    if k >= 8 {
        None
    } else if tag_at(s, pos, type_names()[k as int].0) {
        Some((type_names()[k as int].1, pos + type_names()[k as int].0.len()))
    } else {
        type_name_at(s, pos, k + 1)
    }
}

/// A string in double quotes (with no escapes) at `pos`: its content and
/// the position after the closing quote.
pub open spec fn string_literal_spec(s: Seq<char>, pos: nat) -> Option<(Seq<char>, nat)> {
    if pos < s.len() && s[pos as int] == '"' {
        match quote_end(s, pos + 1) {
            Some(q) => Some((s.subrange((pos + 1) as int, q as int), q + 1)),
            None => None,
        }
    } else {
        None
    }
}

/// A literal at `pos`: `null`, a string, `true`, `false`, an integer or a
/// type name, tried in that order.
pub open spec fn literal_spec(s: Seq<char>, pos: nat) -> Option<(SLiteral, nat)> {
    if tag_at(s, pos, "null"@) {
        Some((SLiteral::Null, pos + 4))
    } else if string_literal_spec(s, pos) is Some {
        let (t, e) = string_literal_spec(s, pos)->Some_0;
        Some((SLiteral::String(t), e))
    } else if tag_at(s, pos, "true"@) {
        Some((SLiteral::Boolean(true), pos + 4))
    } else if tag_at(s, pos, "false"@) {
        Some((SLiteral::Boolean(false), pos + 5))
    } else if number_end(s, pos) is Some {
        let e = number_end(s, pos)->Some_0;
        Some((SLiteral::Number(s.subrange(pos as int, e as int)), e))
    } else {
        match type_name_at(s, pos, 0) {
            Some((t, e)) => Some((SLiteral::Type(t), e)),
            None => None,
        }
    }
}

proof fn lemma_digits_end_bounds(s: Seq<char>, pos: nat)
    requires
        pos <= s.len(),
    ensures
        pos <= digits_end(s, pos) <= s.len(),
    decreases s.len() - pos,
{
    if pos < s.len() && is_ascii_digit(s[pos as int]) {
        lemma_digits_end_bounds(s, pos + 1);
    }
}

proof fn lemma_quote_end_bounds(s: Seq<char>, pos: nat)
    ensures
        quote_end(s, pos) matches Some(q) ==> pos <= q < s.len() && s[q as int] == '"',
    decreases s.len() - pos,
{
    if pos < s.len() && s[pos as int] != '"' {
        lemma_quote_end_bounds(s, pos + 1);
    }
}

fn number_end_exec(inp: &Input, pos: usize) -> (r: Option<usize>)
    requires
        pos <= inp.chars.len(),
    ensures
        match r {
            Some(e) => number_end(inp.chars@, pos as nat) == Some(e as nat) && pos < e <= inp.chars.len(),
            None => number_end(inp.chars@, pos as nat).is_none(),
        },
{
    let start = if pos < inp.chars.len() && (inp.chars[pos] == '+' || inp.chars[pos] == '-') { pos + 1 } else { pos };
    proof {
        lemma_digits_end_bounds(inp.chars@, start as nat);
    }
    let mut e = start;
    while e < inp.chars.len() && '0' <= inp.chars[e] && inp.chars[e] <= '9'
        invariant
            start <= e <= inp.chars.len(),
            digits_end(inp.chars@, start as nat) == digits_end(inp.chars@, e as nat),
        decreases inp.chars.len() - e,
    {
        e += 1;
    }
    if e > start {
        let text = inp.slice(pos, e);
        if parse_i64(text.as_str()).is_some() {
            return Some(e);
        }
    }
    None
}

fn quote_end_exec(inp: &Input, pos: usize) -> (r: Option<usize>)
    requires
        pos <= inp.chars.len(),
    ensures
        r matches Some(q) ==> quote_end(inp.chars@, pos as nat) == Some(q as nat) && pos <= q < inp.chars.len(),
        r is None ==> quote_end(inp.chars@, pos as nat).is_none(),
{
    proof {
        lemma_quote_end_bounds(inp.chars@, pos as nat);
    }
    let mut p = pos;
    while p < inp.chars.len()
        invariant
            pos <= p <= inp.chars.len(),
            quote_end(inp.chars@, pos as nat) == quote_end(inp.chars@, p as nat),
        decreases inp.chars.len() - p,
    {
        if inp.chars[p] == '"' {
            return Some(p);
        }
        p += 1;
    }
    None
}

/// A string in double quotes at `pos`: its content and the position after
/// the closing quote.
pub fn string_literal(inp: &Input, pos: usize) -> (r: Option<(String, usize)>)
    requires
        pos <= inp.chars.len(),
    ensures
        match r {
            Some((t, e)) => string_literal_spec(inp.chars@, pos as nat) == Some((t@, e as nat)) && pos < e <= inp.chars.len(),
            None => string_literal_spec(inp.chars@, pos as nat).is_none(),
        },
{
    if pos < inp.chars.len() && inp.chars[pos] == '"' {
        match quote_end_exec(inp, pos + 1) {
            Some(q) => Some((inp.slice(pos + 1, q), q + 1)),
            None => None,
        }
    } else {
        None
    }
}

pub fn value_type_at(inp: &Input, pos: usize) -> (r: Option<(ValueType, usize)>)
    requires
        pos <= inp.chars.len(),
    ensures
        match r {
            Some((t, e)) => type_name_at(inp.chars@, pos as nat, 0) == Some((t, e as nat)) && pos < e <= inp.chars.len(),
            None => type_name_at(inp.chars@, pos as nat, 0).is_none(),
        },
{
    proof {
        reveal_strlit("Type");
        reveal_strlit("Null");
        reveal_strlit("Boolean");
        reveal_strlit("Integer");
        reveal_strlit("Array");
        reveal_strlit("Object");
        reveal_strlit("String");
        reveal_strlit("Lambda");
        reveal_with_fuel(type_name_at, 9);
    }
    match tag(inp, pos, "Type") { Some(e) => return Some((ValueType::Type, e)), None => {} }
    match tag(inp, pos, "Null") { Some(e) => return Some((ValueType::Null, e)), None => {} }
    match tag(inp, pos, "Boolean") { Some(e) => return Some((ValueType::Boolean, e)), None => {} }
    match tag(inp, pos, "Integer") { Some(e) => return Some((ValueType::Integer, e)), None => {} }
    match tag(inp, pos, "Array") { Some(e) => return Some((ValueType::Array, e)), None => {} }
    match tag(inp, pos, "Object") { Some(e) => return Some((ValueType::Object, e)), None => {} }
    match tag(inp, pos, "String") { Some(e) => return Some((ValueType::String, e)), None => {} }
    match tag(inp, pos, "Lambda") { Some(e) => return Some((ValueType::Lambda, e)), None => {} }
    None
}

/// The literal at `pos`, and the position after it.
pub fn literal(inp: &Input, pos: usize) -> (r: Option<(Literal, usize)>)
    requires
        pos <= inp.chars.len(),
    ensures
        match r {
            Some((l, e)) => literal_spec(inp.chars@, pos as nat) == Some((l@, e as nat)) && pos < e <= inp.chars.len(),
            None => literal_spec(inp.chars@, pos as nat).is_none(),
        },
{
    proof {
        reveal_strlit("null");
        reveal_strlit("true");
        reveal_strlit("false");
    }
    match tag(inp, pos, "null") {
        Some(e) => return Some((Literal::Null, e)),
        None => {},
    }
    match string_literal(inp, pos) {
        Some((t, e)) => return Some((Literal::String(t), e)),
        None => {},
    }
    match tag(inp, pos, "true") {
        Some(e) => return Some((Literal::Boolean(true), e)),
        None => {},
    }
    match tag(inp, pos, "false") {
        Some(e) => return Some((Literal::Boolean(false), e)),
        None => {},
    }
    match number_end_exec(inp, pos) {
        Some(e) => return Some((Literal::Number(inp.slice(pos, e)), e)),
        None => {},
    }
    match value_type_at(inp, pos) {
        Some((t, e)) => Some((Literal::Type(t), e)),
        None => None,
    }
}

} // verus!
