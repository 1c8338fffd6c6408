//! A small JSON reader and writer, specified over sequences of characters.
//!
//! The grammar is the usual one: objects, arrays, strings with escapes
//! (`\uXXXX` limited to code points outside the surrogate range), numbers
//! (kept as their literal text), booleans and `null`.  The functions
//! `sp_value` and friends form the mathematical definition of the accepted
//! language; the executable parser and printer are proved against them.

use vstd::prelude::*;

verus! {

// ---------------------------------------------------------------------------
// The document tree
// ---------------------------------------------------------------------------

/// One JSON value.  Numbers keep their literal text; object members keep
/// their order and any duplicate keys.
#[derive(Debug, PartialEq)]
pub enum Json {
    Null,
    Bool(bool),
    Num(Vec<char>),
    Str(Vec<char>),
    Arr(Vec<Json>),
    Obj(Vec<(Vec<char>, Json)>),
}

/// View of a JSON value.
pub ghost enum JsonView {
    Null,
    Bool(bool),
    Num(Seq<char>),
    Str(Seq<char>),
    Arr(Seq<JsonView>),
    Obj(Seq<(Seq<char>, JsonView)>),
}

/// The views of a sequence of values.
pub open spec fn elems_view(es: Seq<Json>) -> Seq<JsonView>
    decreases es,
{
    Seq::new(
        es.len(),
        |i: int|
            if 0 <= i < es.len() {
                es[i]@
            } else {
                JsonView::Null
            },
    )
}

/// The views of a sequence of members.
pub open spec fn pairs_view(ms: Seq<(Vec<char>, Json)>) -> Seq<(Seq<char>, JsonView)>
    decreases ms,
{
    Seq::new(
        ms.len(),
        |i: int|
            if 0 <= i < ms.len() {
                (ms[i].0@, ms[i].1@)
            } else {
                (Seq::empty(), JsonView::Null)
            },
    )
}

impl View for Json {
    type V = JsonView;

    open spec fn view(&self) -> JsonView
        decreases self,
    {
        match self {
            Json::Null => JsonView::Null,
            Json::Bool(b) => JsonView::Bool(*b),
            Json::Num(t) => JsonView::Num(t@),
            Json::Str(t) => JsonView::Str(t@),
            Json::Arr(es) => JsonView::Arr(elems_view(es@)),
            Json::Obj(ms) => JsonView::Obj(pairs_view(ms@)),
        }
    }
}

/// How `elems_view` reads, element by element.
pub proof fn lemma_elems_view(es: Seq<Json>)
    ensures
        elems_view(es).len() == es.len(),
        forall|i: int| 0 <= i < es.len() ==> elems_view(es)[i] == #[trigger] es[i]@,
{
}

/// How `pairs_view` reads, member by member.
pub proof fn lemma_pairs_view(ms: Seq<(Vec<char>, Json)>)
    ensures
        pairs_view(ms).len() == ms.len(),
        forall|i: int| #![trigger ms[i]]
            0 <= i < ms.len() ==> pairs_view(ms)[i] == (ms[i].0@, ms[i].1@),
{
}

/// The member with the given key, where a later member shadows an earlier
/// one with the same key.
pub open spec fn obj_get(ms: Seq<(Seq<char>, JsonView)>, key: Seq<char>) -> Option<JsonView>
    decreases ms.len(),
{
    if ms.len() == 0 {
        None
    } else if ms.last().0 == key {
        Some(ms.last().1)
    } else {
        obj_get(ms.drop_last(), key)
    }
}

/// The text of a string value, if the value is a string.
pub open spec fn as_text(v: Option<JsonView>) -> Option<Seq<char>> {
    match v {
        Some(JsonView::Str(t)) => Some(t),
        _ => None,
    }
}

// ---------------------------------------------------------------------------
// Character classes
// ---------------------------------------------------------------------------

pub open spec fn is_ws(c: char) -> bool {
    c == ' ' || c == '\n' || c == '\r' || c == '\t'
}

pub open spec fn is_digit(c: char) -> bool {
    '0' as u32 <= c as u32 && c as u32 <= '9' as u32
}

pub open spec fn is_hex(c: char) -> bool {
    is_digit(c) || ('a' as u32 <= c as u32 && c as u32 <= 'f' as u32) || ('A' as u32 <= c as u32
        && c as u32 <= 'F' as u32)
}

pub open spec fn hex_val(c: char) -> int {
    if is_digit(c) {
        c as u32 - '0' as u32
    } else if 'a' as u32 <= c as u32 && c as u32 <= 'f' as u32 {
        c as u32 - 'a' as u32 + 10
    } else {
        c as u32 - 'A' as u32 + 10
    }
}

/// The character a short escape stands for, if the escape is legal.
pub open spec fn esc_char(e: char) -> Option<char> {
    if e == '"' {
        Some('"')
    } else if e == '\\' {
        Some('\\')
    } else if e == '/' {
        Some('/')
    } else if e == 'b' {
        Some('\u{0008}')
    } else if e == 'f' {
        Some('\u{000C}')
    } else if e == 'n' {
        Some('\n')
    } else if e == 'r' {
        Some('\r')
    } else if e == 't' {
        Some('\t')
    } else {
        None
    }
}

/// Whether a code point is a unicode scalar value.
pub open spec fn valid_cp(cp: int) -> bool {
    (0 <= cp < 0xD800) || (0xE000 <= cp <= 0x10FFFF)
}

/// The character with the given code point.
pub open spec fn char_of(cp: int) -> char {
    choose|c: char| (#[trigger] (c as u32)) == cp
}

/// Relies on `char::from_u32`: it returns `Some` exactly when the argument
/// is a unicode scalar value, and the returned character carries that code.
#[verifier::external_body]
fn char_from_u32(cp: u32) -> (r: Option<char>)
    ensures
        r is Some <==> valid_cp(cp as int),
        r matches Some(c) ==> c == char_of(cp as int) && c as u32 == cp,
{
    char::from_u32(cp)
}

// ---------------------------------------------------------------------------
// The accepted language, as recursive functions
// ---------------------------------------------------------------------------

/// The first position at or after `i` that does not hold whitespace.
pub open spec fn sp_skip_ws(s: Seq<char>, i: int) -> int
    decreases s.len() - i,
{
    if 0 <= i < s.len() && is_ws(s[i]) {
        sp_skip_ws(s, i + 1)
    } else {
        i
    }
}

/// The first position at or after `i` that does not hold a digit.
pub open spec fn sp_digits(s: Seq<char>, i: int) -> int
    decreases s.len() - i,
{
    if 0 <= i < s.len() && is_digit(s[i]) {
        sp_digits(s, i + 1)
    } else {
        i
    }
}

/// String body starting at `i`, just after the opening quote: the decoded
/// text and the position after the closing quote.
pub open spec fn sp_string(s: Seq<char>, i: int) -> Option<(Seq<char>, int)>
    decreases s.len() - i,
{
    if i < 0 || i >= s.len() {
        None
    } else if s[i] == '"' {
        Some((Seq::empty(), i + 1))
    } else if s[i] == '\\' {
        if i + 1 < s.len() && s[i + 1] == 'u' {
            if i + 5 < s.len() && is_hex(s[i + 2]) && is_hex(s[i + 3]) && is_hex(s[i + 4])
                && is_hex(s[i + 5]) {
                let cp = hex_val(s[i + 2]) * 4096 + hex_val(s[i + 3]) * 256 + hex_val(s[i + 4])
                    * 16 + hex_val(s[i + 5]);
                if valid_cp(cp) {
                    match sp_string(s, i + 6) {
                        Some((t, j)) => Some((seq![char_of(cp)] + t, j)),
                        None => None,
                    }
                } else {
                    None
                }
            } else {
                None
            }
        } else if i + 1 < s.len() {
            match esc_char(s[i + 1]) {
                Some(c) => match sp_string(s, i + 2) {
                    Some((t, j)) => Some((seq![c] + t, j)),
                    None => None,
                },
                None => None,
            }
        } else {
            None
        }
    } else if (s[i] as u32) < 32 {
        None
    } else {
        match sp_string(s, i + 1) {
            Some((t, j)) => Some((seq![s[i]] + t, j)),
            None => None,
        }
    }
}

/// Fractional part starting at `i`: the position after it, if well-formed.
pub open spec fn sp_frac(s: Seq<char>, i: int) -> Option<int>
    decreases s.len() - i, 1int,
{
    if 0 <= i < s.len() && s[i] == '.' {
        if i + 1 < s.len() && is_digit(s[i + 1]) {
            Some(sp_digits(s, i + 1))
        } else {
            None
        }
    } else {
        Some(i)
    }
}

/// Exponent part starting at `i`: the position after it, if well-formed.
pub open spec fn sp_exp(s: Seq<char>, i: int) -> Option<int>
    decreases s.len() - i, 1int,
{
    if 0 <= i < s.len() && (s[i] == 'e' || s[i] == 'E') {
        let p = if i + 1 < s.len() && (s[i + 1] == '+' || s[i + 1] == '-') {
            i + 2
        } else {
            i + 1
        };
        if 0 <= p < s.len() && is_digit(s[p]) {
            Some(sp_digits(s, p))
        } else {
            None
        }
    } else {
        Some(i)
    }
}

/// Number starting at `i`: its literal text and the position after it.
pub open spec fn sp_number(s: Seq<char>, i: int) -> Option<(Seq<char>, int)>
    decreases s.len() - i, 2int,
{
    let p = if 0 <= i < s.len() && s[i] == '-' {
        i + 1
    } else {
        i
    };
    if !(0 <= p < s.len() && is_digit(s[p])) {
        None
    } else {
        let q = sp_digits(s, p);
        if !(p < q <= s.len()) {
            None
        } else if s[p] == '0' && q != p + 1 {
            None
        } else {
            match sp_frac(s, q) {
                None => None,
                Some(r) => if !(q <= r <= s.len()) {
                    None
                } else {
                    match sp_exp(s, r) {
                        None => None,
                        Some(t) => if !(r <= t <= s.len()) {
                            None
                        } else {
                            Some((s.subrange(i, t), t))
                        },
                    }
                },
            }
        }
    }
}

/// Value starting at `i`, after optional whitespace: the value and the
/// position after it.
pub open spec fn sp_value(s: Seq<char>, i: int) -> Option<(JsonView, int)>
    decreases s.len() - i, 3int,
{
    let j = sp_skip_ws(s, i);
    if !(i <= j < s.len()) {
        None
    } else if s[j] == '{' {
        match sp_members(s, j + 1) {
            Some((ms, k)) => Some((JsonView::Obj(ms), k)),
            None => None,
        }
    } else if s[j] == '[' {
        match sp_elems(s, j + 1) {
            Some((es, k)) => Some((JsonView::Arr(es), k)),
            None => None,
        }
    } else if s[j] == '"' {
        match sp_string(s, j + 1) {
            Some((t, k)) => Some((JsonView::Str(t), k)),
            None => None,
        }
    } else if s[j] == 't' {
        if s.len() - j >= 4 && s[j + 1] == 'r' && s[j + 2] == 'u' && s[j + 3] == 'e' {
            Some((JsonView::Bool(true), j + 4))
        } else {
            None
        }
    } else if s[j] == 'f' {
        if s.len() - j >= 5 && s[j + 1] == 'a' && s[j + 2] == 'l' && s[j + 3] == 's' && s[j + 4]
            == 'e' {
            Some((JsonView::Bool(false), j + 5))
        } else {
            None
        }
    } else if s[j] == 'n' {
        if s.len() - j >= 4 && s[j + 1] == 'u' && s[j + 2] == 'l' && s[j + 3] == 'l' {
            Some((JsonView::Null, j + 4))
        } else {
            None
        }
    } else if s[j] == '-' || is_digit(s[j]) {
        match sp_number(s, j) {
            Some((t, k)) => Some((JsonView::Num(t), k)),
            None => None,
        }
    } else {
        None
    }
}

/// One or more array elements starting at `i`, up to and including the
/// closing bracket.
pub open spec fn sp_items(s: Seq<char>, i: int) -> Option<(Seq<JsonView>, int)>
    decreases s.len() - i, 4int,
{
    match sp_value(s, i) {
        None => None,
        Some((v, j)) => if !(i < j <= s.len()) {
            None
        } else {
            let m = sp_skip_ws(s, j);
            if !(j <= m < s.len()) {
                None
            } else if s[m] == ',' {
                match sp_items(s, m + 1) {
                    Some((es, k)) => Some((seq![v] + es, k)),
                    None => None,
                }
            } else if s[m] == ']' {
                Some((seq![v], m + 1))
            } else {
                None
            }
        },
    }
}

/// Array body starting at `i`, just after the opening bracket.
pub open spec fn sp_elems(s: Seq<char>, i: int) -> Option<(Seq<JsonView>, int)>
    decreases s.len() - i, 5int,
{
    let k = sp_skip_ws(s, i);
    if !(i <= k < s.len()) {
        None
    } else if s[k] == ']' {
        Some((Seq::empty(), k + 1))
    } else {
        sp_items(s, i)
    }
}

/// One or more object members starting at `i`, up to and including the
/// closing brace.
pub open spec fn sp_pairs(s: Seq<char>, i: int) -> Option<(Seq<(Seq<char>, JsonView)>, int)>
    decreases s.len() - i, 4int,
{
    let m0 = sp_skip_ws(s, i);
    if !(i <= m0 < s.len() && s[m0] == '"') {
        None
    } else {
        match sp_string(s, m0 + 1) {
            None => None,
            Some((key, j)) => if !(m0 + 1 < j <= s.len()) {
                None
            } else {
                let m1 = sp_skip_ws(s, j);
                if !(j <= m1 < s.len() && s[m1] == ':') {
                    None
                } else {
                    match sp_value(s, m1 + 1) {
                        None => None,
                        Some((v, j2)) => if !(m1 < j2 <= s.len()) {
                            None
                        } else {
                            let m2 = sp_skip_ws(s, j2);
                            if !(j2 <= m2 < s.len()) {
                                None
                            } else if s[m2] == ',' {
                                match sp_pairs(s, m2 + 1) {
                                    Some((ms, k)) => Some((seq![(key, v)] + ms, k)),
                                    None => None,
                                }
                            } else if s[m2] == '}' {
                                Some((seq![(key, v)], m2 + 1))
                            } else {
                                None
                            }
                        },
                    }
                }
            },
        }
    }
}

/// Object body starting at `i`, just after the opening brace.
pub open spec fn sp_members(s: Seq<char>, i: int) -> Option<(Seq<(Seq<char>, JsonView)>, int)>
    decreases s.len() - i, 5int,
{
    let k = sp_skip_ws(s, i);
    if !(i <= k < s.len()) {
        None
    } else if s[k] == '}' {
        Some((Seq::empty(), k + 1))
    } else {
        sp_pairs(s, i)
    }
}

/// The document a whole character sequence denotes, if it is well-formed:
/// one value, possibly surrounded by whitespace.
pub open spec fn sp_json(s: Seq<char>) -> Option<JsonView> {
    match sp_value(s, 0) {
        Some((v, j)) => if sp_skip_ws(s, j) == s.len() {
            Some(v)
        } else {
            None
        },
        None => None,
    }
}

// ---------------------------------------------------------------------------
// The executable parser
// ---------------------------------------------------------------------------

fn ex_skip_ws(s: &Vec<char>, i: usize) -> (r: usize)
    requires
        i <= s@.len(),
    ensures
        r as int == sp_skip_ws(s@, i as int),
        i <= r <= s@.len(),
{
    let mut k = i;
    while k < s.len() && (s[k] == ' ' || s[k] == '\n' || s[k] == '\r' || s[k] == '\t')
        invariant
            i <= k <= s@.len(),
            sp_skip_ws(s@, i as int) == sp_skip_ws(s@, k as int),
        decreases s@.len() - k,
    {
        k = k + 1;
    }
    k
}

fn ex_digits(s: &Vec<char>, i: usize) -> (r: usize)
    requires
        i <= s@.len(),
    ensures
        r as int == sp_digits(s@, i as int),
        i <= r <= s@.len(),
{
    let mut k = i;
    while k < s.len() && '0' as u32 <= s[k] as u32 && s[k] as u32 <= '9' as u32
        invariant
            i <= k <= s@.len(),
            sp_digits(s@, i as int) == sp_digits(s@, k as int),
        decreases s@.len() - k,
    {
        k = k + 1;
    }
    k
}

proof fn lemma_digits_lb(s: Seq<char>, i: int)
    ensures
        sp_digits(s, i) >= i,
    decreases s.len() - i,
{
    if 0 <= i < s.len() && is_digit(s[i]) {
        lemma_digits_lb(s, i + 1);
    }
}

/// The characters of `s` from `i` (inclusive) to `j` (exclusive).
fn chars_sub(s: &Vec<char>, i: usize, j: usize) -> (r: Vec<char>)
    requires
        i <= j <= s@.len(),
    ensures
        r@ == s@.subrange(i as int, j as int),
{
    let mut r: Vec<char> = Vec::new();
    let mut k = i;
    while k < j
        invariant
            i <= k <= j <= s@.len(),
            r@ == s@.subrange(i as int, k as int),
        decreases j - k,
    {
        r.push(s[k]);
        k = k + 1;
        proof {
            assert(r@ =~= s@.subrange(i as int, k as int));
        }
    }
    r
}

fn ex_string(s: &Vec<char>, i: usize) -> (r: Option<(Vec<char>, usize)>)
    requires
        i <= s@.len(),
    ensures
        match r {
            Some((t, j)) => sp_string(s@, i as int) == Some((t@, j as int)) && i < j <= s@.len(),
            None => sp_string(s@, i as int) is None,
        },
    decreases s@.len() - i,
{
    if i >= s.len() {
        return None;
    }
    let c = s[i];
    if c == '"' {
        let t: Vec<char> = Vec::new();
        proof {
            assert(t@ =~= Seq::<char>::empty());
        }
        Some((t, i + 1))
    } else if c == '\\' {
        if s.len() - i > 1 && s[i + 1] == 'u' {
            if s.len() - i > 5 && hex_ok(s[i + 2]) && hex_ok(s[i + 3]) && hex_ok(s[i + 4])
                && hex_ok(s[i + 5]) {
                let cp: u32 = hex_of(s[i + 2]) * 4096 + hex_of(s[i + 3]) * 256 + hex_of(s[i + 4])
                    * 16 + hex_of(s[i + 5]);
                if 0xD800 <= cp && cp < 0xE000 {
                    return None;
                }
                let copt = char_from_u32(cp);
                match copt {
                    None => {
                        proof {
                            assert(false);
                        }
                        None
                    },
                    Some(ch) => {
                        match ex_string(s, i + 6) {
                            Some((mut t, j)) => {
                                let ghost t0 = t@;
                                t.insert(0, ch);
                                proof {
                                    assert(t@ =~= seq![char_of(cp as int)] + t0);
                                }
                                Some((t, j))
                            },
                            None => None,
                        }
                    },
                }
            } else {
                None
            }
        } else if s.len() - i > 1 {
            let e = s[i + 1];
            let dec = if e == '"' {
                Some('"')
            } else if e == '\\' {
                Some('\\')
            } else if e == '/' {
                Some('/')
            } else if e == 'b' {
                Some('\u{0008}')
            } else if e == 'f' {
                Some('\u{000C}')
            } else if e == 'n' {
                Some('\n')
            } else if e == 'r' {
                Some('\r')
            } else if e == 't' {
                Some('\t')
            } else {
                None
            };
            proof {
                assert(dec == esc_char(s@[i + 1]));
            }
            match dec {
                Some(d) => match ex_string(s, i + 2) {
                    Some((mut t, j)) => {
                        let ghost t0 = t@;
                        t.insert(0, d);
                        proof {
                            assert(t@ =~= seq![d] + t0);
                        }
                        Some((t, j))
                    },
                    None => None,
                },
                None => None,
            }
        } else {
            None
        }
    } else if (c as u32) < 32 {
        None
    } else {
        match ex_string(s, i + 1) {
            Some((mut t, j)) => {
                let ghost t0 = t@;
                t.insert(0, c);
                proof {
                    assert(t@ =~= seq![c] + t0);
                }
                Some((t, j))
            },
            None => None,
        }
    }
}

fn hex_ok(c: char) -> (r: bool)
    ensures
        r == is_hex(c),
{
    ('0' as u32 <= c as u32 && c as u32 <= '9' as u32) || ('a' as u32 <= c as u32 && c as u32 <= 'f' as u32) || ('A' as u32 <= c as u32 && c as u32 <= 'F' as u32)
}

fn hex_of(c: char) -> (r: u32)
    requires
        is_hex(c),
    ensures
        r as int == hex_val(c),
        r <= 15,
{
    if '0' as u32 <= c as u32 && c as u32 <= '9' as u32 {
        c as u32 - '0' as u32
    } else if 'a' as u32 <= c as u32 && c as u32 <= 'f' as u32 {
        c as u32 - 'a' as u32 + 10
    } else {
        c as u32 - 'A' as u32 + 10
    }
}

fn ex_number(s: &Vec<char>, i: usize) -> (r: Option<(Vec<char>, usize)>)
    requires
        i <= s@.len(),
    ensures
        match r {
            Some((t, j)) => sp_number(s@, i as int) == Some((t@, j as int)) && i < j <= s@.len(),
            None => sp_number(s@, i as int) is None,
        },
{
    let p = if i < s.len() && s[i] == '-' {
        i + 1
    } else {
        i
    };
    if !(p < s.len() && '0' as u32 <= s[p] as u32 && s[p] as u32 <= '9' as u32) {
        return None;
    }
    let q = ex_digits(s, p);
    proof {
        lemma_digits_lb(s@, p as int + 1);
    }
    if s[p] == '0' && q != p + 1 {
        return None;
    }
    // fractional part
    let r1 = if q < s.len() && s[q] == '.' {
        if s.len() - q > 1 && '0' as u32 <= s[q + 1] as u32 && s[q + 1] as u32 <= '9' as u32 {
            Some(ex_digits(s, q + 1))
        } else {
            None
        }
    } else {
        Some(q)
    };
    proof {
        assert(match r1 {
            Some(x) => sp_frac(s@, q as int) == Some(x as int),
            None => sp_frac(s@, q as int) is None,
        });
    }
    let r1 = match r1 {
        Some(x) => x,
        None => {
            return None;
        },
    };
    // exponent part
    let r2 = if r1 < s.len() && (s[r1] == 'e' || s[r1] == 'E') {
        let pe = if s.len() - r1 > 1 && (s[r1 + 1] == '+' || s[r1 + 1] == '-') {
            r1 + 2
        } else {
            r1 + 1
        };
        if pe < s.len() && '0' as u32 <= s[pe] as u32 && s[pe] as u32 <= '9' as u32 {
            Some(ex_digits(s, pe))
        } else {
            None
        }
    } else {
        Some(r1)
    };
    proof {
        assert(match r2 {
            Some(x) => sp_exp(s@, r1 as int) == Some(x as int),
            None => sp_exp(s@, r1 as int) is None,
        });
    }
    match r2 {
        Some(t) => Some((chars_sub(s, i, t), t)),
        None => None,
    }
}

fn ex_value(s: &Vec<char>, i: usize) -> (r: Option<(Json, usize)>)
    requires
        i <= s@.len(),
    ensures
        match r {
            Some((v, j)) => sp_value(s@, i as int) == Some((v@, j as int)) && i < j <= s@.len(),
            None => sp_value(s@, i as int) is None,
        },
    decreases s@.len() - i, 3int,
{
    let j = ex_skip_ws(s, i);
    if j >= s.len() {
        return None;
    }
    let c = s[j];
    if c == '{' {
        match ex_members(s, j + 1) {
            Some((ms, k)) => {
                let ghost ms0 = ms@;
                let v = Json::Obj(ms);
                proof {
                    assert(v@ == JsonView::Obj(pairs_view(ms0)));
                }
                Some((v, k))
            },
            None => None,
        }
    } else if c == '[' {
        match ex_elems(s, j + 1) {
            Some((es, k)) => {
                let ghost es0 = es@;
                let v = Json::Arr(es);
                proof {
                    assert(v@ == JsonView::Arr(elems_view(es0)));
                }
                Some((v, k))
            },
            None => None,
        }
    } else if c == '"' {
        match ex_string(s, j + 1) {
            Some((t, k)) => Some((Json::Str(t), k)),
            None => None,
        }
    } else if c == 't' {
        if s.len() - j >= 4 && s[j + 1] == 'r' && s[j + 2] == 'u' && s[j + 3] == 'e' {
            Some((Json::Bool(true), j + 4))
        } else {
            None
        }
    } else if c == 'f' {
        if s.len() - j >= 5 && s[j + 1] == 'a' && s[j + 2] == 'l' && s[j + 3] == 's' && s[j + 4]
            == 'e' {
            Some((Json::Bool(false), j + 5))
        } else {
            None
        }
    } else if c == 'n' {
        if s.len() - j >= 4 && s[j + 1] == 'u' && s[j + 2] == 'l' && s[j + 3] == 'l' {
            Some((Json::Null, j + 4))
        } else {
            None
        }
    } else if c == '-' || ('0' as u32 <= c as u32 && c as u32 <= '9' as u32) {
        match ex_number(s, j) {
            Some((t, k)) => Some((Json::Num(t), k)),
            None => None,
        }
    } else {
        None
    }
}

fn ex_items(s: &Vec<char>, i: usize) -> (r: Option<(Vec<Json>, usize)>)
    requires
        i <= s@.len(),
    ensures
        match r {
            Some((es, j)) => sp_items(s@, i as int) == Some((elems_view(es@), j as int)) && i < j
                <= s@.len(),
            None => sp_items(s@, i as int) is None,
        },
    decreases s@.len() - i, 4int,
{
    match ex_value(s, i) {
        None => None,
        Some((v, j)) => {
            let m = ex_skip_ws(s, j);
            if m >= s.len() {
                return None;
            }
            if s[m] == ',' {
                match ex_items(s, m + 1) {
                    Some((mut es, k)) => {
                        let ghost es0 = es@;
                        es.insert(0, v);
                        proof {
                            assert(es@ =~= seq![v] + es0);
                            lemma_elems_view(es@);
                            lemma_elems_view(es0);
                            assert(elems_view(es@) =~= seq![v@] + elems_view(es0));
                        }
                        Some((es, k))
                    },
                    None => None,
                }
            } else if s[m] == ']' {
                let mut es: Vec<Json> = Vec::new();
                es.push(v);
                proof {
                    lemma_elems_view(es@);
                    assert(elems_view(es@) =~= seq![v@]);
                }
                Some((es, m + 1))
            } else {
                None
            }
        },
    }
}

fn ex_elems(s: &Vec<char>, i: usize) -> (r: Option<(Vec<Json>, usize)>)
    requires
        i <= s@.len(),
    ensures
        match r {
            Some((es, j)) => sp_elems(s@, i as int) == Some((elems_view(es@), j as int)) && i < j
                <= s@.len(),
            None => sp_elems(s@, i as int) is None,
        },
    decreases s@.len() - i, 5int,
{
    let k = ex_skip_ws(s, i);
    if k >= s.len() {
        return None;
    }
    if s[k] == ']' {
        let es: Vec<Json> = Vec::new();
        proof {
            assert(elems_view(es@) =~= Seq::<JsonView>::empty());
        }
        Some((es, k + 1))
    } else {
        ex_items(s, i)
    }
}

fn ex_pairs(s: &Vec<char>, i: usize) -> (r: Option<(Vec<(Vec<char>, Json)>, usize)>)
    requires
        i <= s@.len(),
    ensures
        match r {
            Some((ms, j)) => sp_pairs(s@, i as int) == Some((pairs_view(ms@), j as int)) && i < j
                <= s@.len(),
            None => sp_pairs(s@, i as int) is None,
        },
    decreases s@.len() - i, 4int,
{
    let m0 = ex_skip_ws(s, i);
    if !(m0 < s.len() && s[m0] == '"') {
        return None;
    }
    match ex_string(s, m0 + 1) {
        None => None,
        Some((key, j)) => {
            let m1 = ex_skip_ws(s, j);
            if !(m1 < s.len() && s[m1] == ':') {
                return None;
            }
            match ex_value(s, m1 + 1) {
                None => None,
                Some((v, j2)) => {
                    let m2 = ex_skip_ws(s, j2);
                    if m2 >= s.len() {
                        return None;
                    }
                    if s[m2] == ',' {
                        match ex_pairs(s, m2 + 1) {
                            Some((mut ms, k)) => {
                                let ghost ms0 = ms@;
                                let ghost kv = (key@, v@);
                                ms.insert(0, (key, v));
                                proof {
                                    assert(ms@ =~= seq![ms@[0]] + ms0);
                                    lemma_pairs_view(ms@);
                                    lemma_pairs_view(ms0);
                                    assert(pairs_view(ms@) =~= seq![kv] + pairs_view(ms0));
                                }
                                Some((ms, k))
                            },
                            None => None,
                        }
                    } else if s[m2] == '}' {
                        let mut ms: Vec<(Vec<char>, Json)> = Vec::new();
                        ms.push((key, v));
                        proof {
                            lemma_pairs_view(ms@);
                            assert(pairs_view(ms@) =~= seq![(ms@[0].0@, ms@[0].1@)]);
                        }
                        Some((ms, m2 + 1))
                    } else {
                        None
                    }
                },
            }
        },
    }
}

fn ex_members(s: &Vec<char>, i: usize) -> (r: Option<(Vec<(Vec<char>, Json)>, usize)>)
    requires
        i <= s@.len(),
    ensures
        match r {
            Some((ms, j)) => sp_members(s@, i as int) == Some((pairs_view(ms@), j as int)) && i < j
                <= s@.len(),
            None => sp_members(s@, i as int) is None,
        },
    decreases s@.len() - i, 5int,
{
    let k = ex_skip_ws(s, i);
    if k >= s.len() {
        return None;
    }
    if s[k] == '}' {
        let ms: Vec<(Vec<char>, Json)> = Vec::new();
        proof {
            assert(pairs_view(ms@) =~= Seq::<(Seq<char>, JsonView)>::empty());
        }
        Some((ms, k + 1))
    } else {
        ex_pairs(s, i)
    }
}

// ---------------------------------------------------------------------------
// Lookup
// ---------------------------------------------------------------------------

/// The value under a key of an object, `None` on any other value.
pub open spec fn j_get(v: JsonView, key: Seq<char>) -> Option<JsonView> {
    match v {
        JsonView::Obj(ms) => obj_get(ms, key),
        _ => None,
    }
}

fn obj_find<'a>(ms: &'a Vec<(Vec<char>, Json)>, key: &Vec<char>) -> (r: Option<&'a Json>)
    ensures
        match r {
            Some(v) => obj_get(pairs_view(ms@), key@) == Some(v@),
            None => obj_get(pairs_view(ms@), key@) is None,
        },
{
    proof {
        lemma_pairs_view(ms@);
        assert(pairs_view(ms@).take(ms@.len() as int) =~= pairs_view(ms@));
    }
    let ghost pv = pairs_view(ms@);
    let mut i = ms.len();
    while i > 0
        invariant
            i <= ms@.len(),
            pv == pairs_view(ms@),
            pv.len() == ms@.len(),
            forall|k: int| #![trigger ms@[k]] 0 <= k < ms@.len() ==> pv[k] == (ms@[k].0@, ms@[k].1@),
            obj_get(pv.take(i as int), key@) == obj_get(pv, key@),
        decreases i,
    {
        i = i - 1;
        if crate::text::chars_eq(&ms[i].0, key) {
            proof {
                assert(pv.take(i as int + 1).last() == pv[i as int]);
                assert(obj_get(pv.take(i as int + 1), key@) == Some(pv[i as int].1));
            }
            return Some(&ms[i].1);
        }
        proof {
            assert(pv.take(i as int + 1).drop_last() =~= pv.take(i as int));
            assert(pv.take(i as int + 1).last() == pv[i as int]);
        }
    }
    proof {
        assert(pv.take(0) =~= Seq::<(Seq<char>, JsonView)>::empty());
    }
    None
}

impl Json {
    /// The value under a key, when this value is an object.
    pub fn get<'a>(&'a self, key: &Vec<char>) -> (r: Option<&'a Json>)
        ensures
            match r {
                Some(v) => j_get(self@, key@) == Some(v@),
                None => j_get(self@, key@) is None,
            },
    {
        match self {
            Json::Obj(ms) => obj_find(ms, key),
            _ => None,
        }
    }
}

// ---------------------------------------------------------------------------
// Printing
// ---------------------------------------------------------------------------

/// A hexadecimal digit, lower case.
pub open spec fn hex_digit(d: int) -> char {
    if d == 0 { '0' } else if d == 1 { '1' } else if d == 2 { '2' } else if d == 3 { '3' }
    else if d == 4 { '4' } else if d == 5 { '5' } else if d == 6 { '6' } else if d == 7 { '7' }
    else if d == 8 { '8' } else if d == 9 { '9' } else if d == 10 { 'a' } else if d == 11 { 'b' }
    else if d == 12 { 'c' } else if d == 13 { 'd' } else if d == 14 { 'e' } else { 'f' }
}

/// How one character is written inside a JSON string.
pub open spec fn esc_of(c: char) -> Seq<char> {
    if c == '"' {
        seq!['\\', '"']
    } else if c == '\\' {
        seq!['\\', '\\']
    } else if c == '\u{0008}' {
        seq!['\\', 'b']
    } else if c == '\t' {
        seq!['\\', 't']
    } else if c == '\n' {
        seq!['\\', 'n']
    } else if c == '\u{000C}' {
        seq!['\\', 'f']
    } else if c == '\r' {
        seq!['\\', 'r']
    } else if (c as u32) < 32 {
        seq!['\\', 'u', '0', '0', hex_digit(c as u32 as int / 16), hex_digit(c as u32 as int % 16)]
    } else {
        seq![c]
    }
}

/// How a text is written inside a JSON string, from position `k` on.
pub open spec fn esc_text_from(t: Seq<char>, k: int) -> Seq<char>
    decreases t.len() - k,
{
    if k < 0 || k >= t.len() {
        Seq::empty()
    } else {
        esc_of(t[k]) + esc_text_from(t, k + 1)
    }
}

/// The exact text a value prints as.
pub open spec fn jprint(v: JsonView) -> Seq<char>
    decreases v, 0int,
{
    match v {
        JsonView::Null => seq!['n', 'u', 'l', 'l'],
        JsonView::Bool(b) => if b {
            seq!['t', 'r', 'u', 'e']
        } else {
            seq!['f', 'a', 'l', 's', 'e']
        },
        JsonView::Num(t) => t,
        JsonView::Str(t) => seq!['"'] + esc_text_from(t, 0) + seq!['"'],
        JsonView::Arr(es) => if es.len() == 0 {
            seq!['[', ']']
        } else {
            seq!['['] + jprint_items(es, 0) + seq![']']
        },
        JsonView::Obj(ms) => if ms.len() == 0 {
            seq!['{', '}']
        } else {
            seq!['{'] + jprint_pairs(ms, 0) + seq!['}']
        },
    }
}

/// The elements from `k` on, joined with commas.
pub open spec fn jprint_items(es: Seq<JsonView>, k: int) -> Seq<char>
    decreases es, es.len() - k,
{
    if k < 0 || k >= es.len() {
        Seq::empty()
    } else if k == es.len() - 1 {
        jprint(es[k])
    } else {
        jprint(es[k]) + seq![','] + jprint_items(es, k + 1)
    }
}

/// The members from `k` on, joined with commas.
pub open spec fn jprint_pairs(ms: Seq<(Seq<char>, JsonView)>, k: int) -> Seq<char>
    decreases ms, ms.len() - k,
{
    if k < 0 || k >= ms.len() {
        Seq::empty()
    } else {
        let one = seq!['"'] + esc_text_from(ms[k].0, 0) + seq!['"', ':'] + jprint(ms[k].1);
        if k == ms.len() - 1 {
            one
        } else {
            one + seq![','] + jprint_pairs(ms, k + 1)
        }
    }
}

fn ex_hex_digit(d: u32) -> (r: char)
    requires
        d < 16,
    ensures
        r == hex_digit(d as int),
{
    if d == 0 { '0' } else if d == 1 { '1' } else if d == 2 { '2' } else if d == 3 { '3' }
    else if d == 4 { '4' } else if d == 5 { '5' } else if d == 6 { '6' } else if d == 7 { '7' }
    else if d == 8 { '8' } else if d == 9 { '9' } else if d == 10 { 'a' } else if d == 11 { 'b' }
    else if d == 12 { 'c' } else if d == 13 { 'd' } else if d == 14 { 'e' } else { 'f' }
}

fn push_all(out: &mut Vec<char>, t: &Vec<char>)
    ensures
        final(out)@ == old(out)@ + t@,
{
    let ghost out0 = out@;
    let mut i: usize = 0;
    while i < t.len()
        invariant
            i <= t@.len(),
            out@ == out0 + t@.subrange(0, i as int),
        decreases t@.len() - i,
    {
        out.push(t[i]);
        i = i + 1;
        proof {
            assert(out@ =~= out0 + t@.subrange(0, i as int));
        }
    }
    proof {
        assert(out0 + t@.subrange(0, t@.len() as int) =~= out0 + t@);
    }
}

fn push_esc(out: &mut Vec<char>, c: char)
    ensures
        final(out)@ == old(out)@ + esc_of(c),
{
    let ghost out0 = out@;
    if c == '"' {
        out.push('\\');
        out.push('"');
    } else if c == '\\' {
        out.push('\\');
        out.push('\\');
    } else if c == '\u{0008}' {
        out.push('\\');
        out.push('b');
    } else if c == '\t' {
        out.push('\\');
        out.push('t');
    } else if c == '\n' {
        out.push('\\');
        out.push('n');
    } else if c == '\u{000C}' {
        out.push('\\');
        out.push('f');
    } else if c == '\r' {
        out.push('\\');
        out.push('r');
    } else if (c as u32) < 32 {
        out.push('\\');
        out.push('u');
        out.push('0');
        out.push('0');
        out.push(ex_hex_digit(c as u32 / 16));
        out.push(ex_hex_digit(c as u32 % 16));
    } else {
        out.push(c);
    }
    proof {
        assert(out@ =~= out0 + esc_of(c));
    }
}

fn ex_esc_text(t: &Vec<char>, out: &mut Vec<char>)
    ensures
        final(out)@ == old(out)@ + esc_text_from(t@, 0),
{
    let ghost out0 = out@;
    let mut i: usize = 0;
    while i < t.len()
        invariant
            i <= t@.len(),
            out0 + esc_text_from(t@, 0) == out@ + esc_text_from(t@, i as int),
        decreases t@.len() - i,
    {
        let ghost before = out@;
        push_esc(out, t[i]);
        proof {
            assert(out@ + esc_text_from(t@, i as int + 1) =~= before + esc_text_from(
                t@,
                i as int,
            ));
        }
        i = i + 1;
    }
    proof {
        assert(out@ + esc_text_from(t@, t@.len() as int) =~= out@);
    }
}

fn ex_print(v: &Json, out: &mut Vec<char>)
    ensures
        final(out)@ == old(out)@ + jprint(v@),
    decreases v, 0int,
{
    let ghost out0 = out@;
    match v {
        Json::Null => {
            out.push('n');
            out.push('u');
            out.push('l');
            out.push('l');
            proof {
                assert(out@ =~= out0 + jprint(v@));
            }
        },
        Json::Bool(b) => {
            if *b {
                out.push('t');
                out.push('r');
                out.push('u');
                out.push('e');
            } else {
                out.push('f');
                out.push('a');
                out.push('l');
                out.push('s');
                out.push('e');
            }
            proof {
                assert(out@ =~= out0 + jprint(v@));
            }
        },
        Json::Num(t) => {
            push_all(out, t);
        },
        Json::Str(t) => {
            out.push('"');
            ex_esc_text(t, out);
            out.push('"');
            proof {
                assert(out@ =~= out0 + jprint(v@));
            }
        },
        Json::Arr(es) => {
            out.push('[');
            if es.len() == 0 {
                out.push(']');
                proof {
                    assert(elems_view(es@).len() == 0);
                    assert(out@ =~= out0 + jprint(v@));
                }
            } else {
                ex_print_items(es, 0, out);
                out.push(']');
                proof {
                    assert(out@ =~= out0 + (seq!['['] + jprint_items(elems_view(es@), 0) + seq![
                        ']',
                    ]));
                }
            }
        },
        Json::Obj(ms) => {
            out.push('{');
            if ms.len() == 0 {
                out.push('}');
                proof {
                    assert(pairs_view(ms@).len() == 0);
                    assert(out@ =~= out0 + jprint(v@));
                }
            } else {
                ex_print_pairs(ms, 0, out);
                out.push('}');
                proof {
                    assert(out@ =~= out0 + (seq!['{'] + jprint_pairs(pairs_view(ms@), 0) + seq![
                        '}',
                    ]));
                }
            }
        },
    }
}

fn ex_print_items(es: &Vec<Json>, k: usize, out: &mut Vec<char>)
    requires
        k < es@.len(),
    ensures
        final(out)@ == old(out)@ + jprint_items(elems_view(es@), k as int),
    decreases es@, es@.len() - k,
{
    let ghost out0 = out@;
    proof {
        lemma_elems_view(es@);
    }
    ex_print(&es[k], out);
    if k < es.len() - 1 {
        out.push(',');
        let ghost mid = out@;
        ex_print_items(es, k + 1, out);
        proof {
            assert(out@ =~= out0 + (jprint(es@[k as int]@) + seq![','] + jprint_items(
                elems_view(es@),
                k as int + 1,
            )));
        }
    }
}

fn ex_print_pairs(ms: &Vec<(Vec<char>, Json)>, k: usize, out: &mut Vec<char>)
    requires
        k < ms@.len(),
    ensures
        final(out)@ == old(out)@ + jprint_pairs(pairs_view(ms@), k as int),
    decreases ms@, ms@.len() - k,
{
    let ghost out0 = out@;
    proof {
        lemma_pairs_view(ms@);
    }
    out.push('"');
    ex_esc_text(&ms[k].0, out);
    out.push('"');
    out.push(':');
    ex_print(&ms[k].1, out);
    proof {
        assert(out@ =~= out0 + (seq!['"'] + esc_text_from(ms@[k as int].0@, 0) + seq!['"', ':']
            + jprint(ms@[k as int].1@)));
    }
    if k < ms.len() - 1 {
        out.push(',');
        ex_print_pairs(ms, k + 1, out);
        proof {
            assert(out@ =~= out0 + ((seq!['"'] + esc_text_from(ms@[k as int].0@, 0) + seq![
                '"',
                ':',
            ] + jprint(ms@[k as int].1@)) + seq![','] + jprint_pairs(
                pairs_view(ms@),
                k as int + 1,
            )));
        }
    }
}

/// Print one JSON document, with no added whitespace.
pub fn json_print(v: &Json) -> (out: Vec<char>)
    ensures
        out@ == jprint(v@),
{
    let mut out: Vec<char> = Vec::new();
    ex_print(v, &mut out);
    proof {
        assert(out@ =~= jprint(v@));
    }
    out
}

/// Parse a whole character sequence as one JSON document.
pub fn json_parse(s: &Vec<char>) -> (r: Option<Json>)
    ensures
        match r {
            Some(v) => sp_json(s@) == Some(v@),
            None => sp_json(s@) is None,
        },
{
    match ex_value(s, 0) {
        Some((v, j)) => {
            let e = ex_skip_ws(s, j);
            if e == s.len() {
                Some(v)
            } else {
                None
            }
        },
        None => None,
    }
}

} // verus!
