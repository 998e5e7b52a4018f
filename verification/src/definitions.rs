//! The type-definition string grammar of the declarative catalogue.  A
//! definition string is the literal `null`, a compound (`Vec<T>`,
//! `Option<T>`, `Compact<T>`, `[T; N]`, `(A, B, ...)`), a name of the
//! closed primitive set, or — any other bare name — a type pointer.
//! Generics are parsed by bracket balancing, not tokenization; leading
//! and trailing whitespace is ignored.

use vstd::prelude::*;
use crate::marker::RustTypeMarker;
use crate::text::trim_seq;
use crate::text::trim_str;
use crate::text::lemma_trim_len;
use crate::text::find_top_char;
use crate::text::split_top;
use crate::text::find_top;
use crate::text::split_top_str;
use crate::text::lemma_find_top_char_bounds;
use crate::text::lemma_split_top_shape;

verus! {

/// Is `c` a decimal digit?
pub open spec fn is_digit(c: char) -> bool {
    c == '0' || c == '1' || c == '2' || c == '3' || c == '4' || c == '5' || c == '6' || c == '7'
        || c == '8' || c == '9'
}

/// The value of a decimal digit.
pub open spec fn digit_value(c: char) -> int {
    if c == '0' {
        0
    } else if c == '1' {
        1
    } else if c == '2' {
        2
    } else if c == '3' {
        3
    } else if c == '4' {
        4
    } else if c == '5' {
        5
    } else if c == '6' {
        6
    } else if c == '7' {
        7
    } else if c == '8' {
        8
    } else {
        9
    }
}

/// The value of a sequence of decimal digits, most significant first.
pub open spec fn dec_value(s: Seq<char>) -> int
    decreases s.len(),
{
    if s.len() == 0 {
        0
    } else {
        dec_value(s.drop_last()) * 10 + digit_value(s[s.len() - 1])
    }
}

/// A usable fixed-array length: one to ten digits whose value fits in a
/// `u32`.
pub open spec fn array_count_ok(s: Seq<char>) -> bool {
    &&& 1 <= s.len() <= 10
    &&& (forall|i: int| 0 <= i < s.len() ==> is_digit(#[trigger] s[i]))
    &&& dec_value(s) <= u32::MAX
}

/// `s` opens `Vec<` and closes `>`.
pub open spec fn vec_form(s: Seq<char>) -> bool {
    s.len() >= 5 && s.subrange(0, 4) == "Vec<"@ && s[s.len() - 1] == '>'
}

/// `s` opens `Option<` and closes `>`.
pub open spec fn option_form(s: Seq<char>) -> bool {
    s.len() >= 8 && s.subrange(0, 7) == "Option<"@ && s[s.len() - 1] == '>'
}

/// `s` opens `Compact<` and closes `>`.
pub open spec fn compact_form(s: Seq<char>) -> bool {
    s.len() >= 9 && s.subrange(0, 8) == "Compact<"@ && s[s.len() - 1] == '>'
}

/// `s` is bracketed `[ ... ]`.
pub open spec fn array_form(s: Seq<char>) -> bool {
    s.len() >= 2 && s[0] == '[' && s[s.len() - 1] == ']'
}

/// `s` is parenthesized `( ... )`.
pub open spec fn tuple_form(s: Seq<char>) -> bool {
    s.len() >= 2 && s[0] == '(' && s[s.len() - 1] == ')'
}

/// `s` names one of the closed set of primitives.
pub open spec fn is_primitive_name(s: Seq<char>) -> bool {
    ||| s == "u8"@
    ||| s == "u16"@
    ||| s == "u32"@
    ||| s == "u64"@
    ||| s == "u128"@
    ||| s == "i8"@
    ||| s == "i16"@
    ||| s == "i32"@
    ||| s == "i64"@
    ||| s == "i128"@
    ||| s == "bool"@
    ||| s == "String"@
    ||| s == "Bytes"@
}

/// `t` is the parse of the (already trimmed) definition string `s`: the
/// relational statement of the grammar.  A malformed bracket form falls
/// back to a type pointer holding the whole string, as any other unknown
/// name does.
pub open spec fn type_parses_to(s: Seq<char>, t: RustTypeMarker) -> bool
    decreases s.len(),
    via type_parses_to_dec
{
    if s == "null"@ {
        t == RustTypeMarker::Null
    } else if vec_form(s) {
        match t {
            RustTypeMarker::VecOf(b) => type_parses_to(trim_seq(s.subrange(4, s.len() - 1)), *b),
            _ => false,
        }
    } else if option_form(s) {
        match t {
            RustTypeMarker::OptionOf(b) => type_parses_to(
                trim_seq(s.subrange(7, s.len() - 1)),
                *b,
            ),
            _ => false,
        }
    } else if compact_form(s) {
        match t {
            RustTypeMarker::CompactOf(b) => type_parses_to(
                trim_seq(s.subrange(8, s.len() - 1)),
                *b,
            ),
            _ => false,
        }
    } else if array_form(s) {
        let inner = s.subrange(1, s.len() - 1);
        let j = find_top_char(inner, 0, 0, ';');
        if j < inner.len() && array_count_ok(trim_seq(inner.subrange(j + 1, inner.len() as int))) {
            match t {
                RustTypeMarker::FixedArray(b, n) => type_parses_to(
                    trim_seq(inner.subrange(0, j)),
                    *b,
                ) && n == dec_value(trim_seq(inner.subrange(j + 1, inner.len() as int))),
                _ => false,
            }
        } else {
            match t {
                RustTypeMarker::TypePointer(p) => p@ == s,
                _ => false,
            }
        }
    } else if tuple_form(s) {
        let parts = split_top(s.subrange(1, s.len() - 1));
        match t {
            RustTypeMarker::Tuple(es) => es@.len() == parts.len() && (forall|i: int|
                0 <= i < parts.len() ==> type_parses_to(trim_seq(#[trigger] parts[i]), es@[i])),
            _ => false,
        }
    } else if is_primitive_name(s) {
        match t {
            RustTypeMarker::Primitive(p) => p@ == s,
            _ => false,
        }
    } else {
        match t {
            RustTypeMarker::TypePointer(p) => p@ == s,
            _ => false,
        }
    }
}

#[via_fn]
proof fn type_parses_to_dec(s: Seq<char>, t: RustTypeMarker) {
    type_grammar_decreases(s);
}

proof fn type_grammar_decreases(s: Seq<char>)
    ensures
        vec_form(s) ==> trim_seq(s.subrange(4, s.len() - 1)).len() < s.len(),
        option_form(s) ==> trim_seq(s.subrange(7, s.len() - 1)).len() < s.len(),
        compact_form(s) ==> trim_seq(s.subrange(8, s.len() - 1)).len() < s.len(),
        array_form(s) ==> {
            let inner = s.subrange(1, s.len() - 1);
            let j = find_top_char(inner, 0, 0, ';');
            0 <= j && (j < inner.len() ==> trim_seq(inner.subrange(0, j)).len() < s.len())
        },
        tuple_form(s) ==> (forall|i: int|
            0 <= i < split_top(s.subrange(1, s.len() - 1)).len() ==> trim_seq(
                #[trigger] split_top(s.subrange(1, s.len() - 1))[i],
            ).len() < s.len()),
{
    if vec_form(s) {
        lemma_trim_len(s.subrange(4, s.len() - 1));
    }
    if option_form(s) {
        lemma_trim_len(s.subrange(7, s.len() - 1));
    }
    if compact_form(s) {
        lemma_trim_len(s.subrange(8, s.len() - 1));
    }
    if array_form(s) {
        let inner = s.subrange(1, s.len() - 1);
        lemma_find_top_char_bounds(inner, 0, 0, ';');
        let j = find_top_char(inner, 0, 0, ';');
        if j < inner.len() {
            lemma_trim_len(inner.subrange(0, j));
        }
    }
    if tuple_form(s) {
        let inner = s.subrange(1, s.len() - 1);
        lemma_split_top_shape(inner);
        assert forall|i: int| 0 <= i < split_top(inner).len() implies trim_seq(
            #[trigger] split_top(inner)[i],
        ).len() < s.len() by {
            lemma_trim_len(split_top(inner)[i]);
        }
    }
}

fn str_is(s: &str, lit: &str) -> (r: bool)
    ensures
        r == (s@ == lit@),
{
    crate::text::str_eq(s, lit)
}

fn opens_with(s: &str, lit: &str) -> (r: bool)
    ensures
        r == (s@.len() >= lit@.len() && s@.subrange(0, lit@.len() as int) == lit@),
{
    let n = s.unicode_len();
    let m = lit.unicode_len();
    if n < m {
        return false;
    }
    let head = s.substring_char(0, m);
    crate::text::str_eq(head, lit)
}

fn is_digit_char(c: char) -> (r: bool)
    ensures
        r == is_digit(c),
{
    c == '0' || c == '1' || c == '2' || c == '3' || c == '4' || c == '5' || c == '6' || c == '7'
        || c == '8' || c == '9'
}

fn digit_of(c: char) -> (r: u32)
    requires
        is_digit(c),
    ensures
        r == digit_value(c),
{
    if c == '0' {
        0
    } else if c == '1' {
        1
    } else if c == '2' {
        2
    } else if c == '3' {
        3
    } else if c == '4' {
        4
    } else if c == '5' {
        5
    } else if c == '6' {
        6
    } else if c == '7' {
        7
    } else if c == '8' {
        8
    } else {
        9
    }
}

/// Reads a fixed-array length: accepted exactly when the string is one
/// to ten digits whose value fits in a `u32`.
fn parse_array_count(s: &str) -> (r: Option<u32>)
    ensures
        match r {
            Some(n) => array_count_ok(s@) && n == dec_value(s@),
            None => !array_count_ok(s@),
        },
{
    let n = s.unicode_len();
    if n < 1 || n > 10 {
        return None;
    }
    let mut val: u64 = 0;
    let mut i: usize = 0;
    while i < n
        invariant
            n == s@.len(),
            1 <= n <= 10,
            i <= n,
            forall|k: int| 0 <= k < i ==> is_digit(s@[k]),
            val == dec_value(s@.subrange(0, i as int)),
            val <= 9999999999,
        decreases n - i,
    {
        let c = s.get_char(i);
        if !is_digit_char(c) {
            return None;
        }
        val = val * 10 + digit_of(c) as u64;
        proof {
            assert(s@.subrange(0, i as int + 1).drop_last() =~= s@.subrange(0, i as int));
            lemma_dec_value_bound(s@.subrange(0, i as int + 1));
        }
        i = i + 1;
    }
    proof {
        assert(s@.subrange(0, n as int) =~= s@);
    }
    if val <= 0xffff_ffff {
        Some(val as u32)
    } else {
        None
    }
}

spec fn pow10(n: nat) -> int
    decreases n,
{
    if n == 0 {
        1
    } else {
        10 * pow10((n - 1) as nat)
    }
}

proof fn lemma_dec_value_digits(s: Seq<char>)
    requires
        forall|k: int| 0 <= k < s.len() ==> is_digit(#[trigger] s[k]),
    ensures
        0 <= dec_value(s) < pow10(s.len()),
    decreases s.len(),
{
    if s.len() > 0 {
        assert(forall|k: int|
            0 <= k < s.drop_last().len() ==> is_digit(#[trigger] s.drop_last()[k]));
        lemma_dec_value_digits(s.drop_last());
        assert(is_digit(s[s.len() - 1]));
        assert(0 <= digit_value(s[s.len() - 1]) <= 9);
        assert(pow10(s.len()) == 10 * pow10((s.len() - 1) as nat));
    }
}

proof fn lemma_dec_value_bound(s: Seq<char>)
    requires
        forall|k: int| 0 <= k < s.len() ==> is_digit(#[trigger] s[k]),
    ensures
        0 <= dec_value(s),
        s.len() <= 10 ==> dec_value(s) <= 9999999999,
{
    lemma_dec_value_digits(s);
    if s.len() <= 10 {
        reveal_with_fuel(pow10, 11);
        assert(pow10(10) == 10000000000);
        assert(pow10(s.len()) <= pow10(10)) by {
            lemma_pow10_mono(s.len(), 10);
        }
    }
}

proof fn lemma_pow10_mono(a: nat, b: nat)
    requires
        a <= b,
    ensures
        pow10(a) <= pow10(b),
        pow10(a) >= 1,
    decreases b,
{
    if a < b {
        lemma_pow10_mono(a, (b - 1) as nat);
        assert(pow10(b) == 10 * pow10((b - 1) as nat));
    } else {
        if a > 0 {
            lemma_pow10_mono((a - 1) as nat, (b - 1) as nat);
            assert(pow10(a) == 10 * pow10((a - 1) as nat));
        }
    }
}

/// Parses one definition string of the catalogue.  Leading and trailing
/// whitespace is ignored; the result is the parse of the trimmed string
/// under the grammar.  Parsing is total: an unknown or malformed form is
/// a type pointer holding the string itself.
pub fn parse_type_def(s: &str) -> (r: RustTypeMarker)
    ensures
        type_parses_to(trim_seq(s@), r),
{
    let w = trim_str(s);
    parse_trimmed(w)
}

fn parse_trimmed(s: &str) -> (r: RustTypeMarker)
    ensures
        type_parses_to(s@, r),
    decreases s@.len(),
{
    let n = s.unicode_len();
    if str_is(s, "null") {
        return RustTypeMarker::Null;
    }
    if opens_with(s, "Vec<") && n >= 5 && s.get_char(n - 1) == '>' {
        proof {
            reveal_strlit("Vec<");
            assert(vec_form(s@));
        }
        let inner = trim_str(s.substring_char(4, n - 1));
        proof {
            lemma_trim_len(s@.subrange(4, s@.len() - 1));
        }
        let b = parse_trimmed(inner);
        return RustTypeMarker::VecOf(Box::new(b));
    }
    if opens_with(s, "Option<") && n >= 8 && s.get_char(n - 1) == '>' {
        proof {
            reveal_strlit("Vec<");
            reveal_strlit("Option<");
            assert(option_form(s@));
            assert(!vec_form(s@));
        }
        let inner = trim_str(s.substring_char(7, n - 1));
        proof {
            lemma_trim_len(s@.subrange(7, s@.len() - 1));
        }
        let b = parse_trimmed(inner);
        return RustTypeMarker::OptionOf(Box::new(b));
    }
    if opens_with(s, "Compact<") && n >= 9 && s.get_char(n - 1) == '>' {
        proof {
            reveal_strlit("Vec<");
            reveal_strlit("Option<");
            reveal_strlit("Compact<");
            assert(compact_form(s@));
            assert(!vec_form(s@) && !option_form(s@));
        }
        let inner = trim_str(s.substring_char(8, n - 1));
        proof {
            lemma_trim_len(s@.subrange(8, s@.len() - 1));
        }
        let b = parse_trimmed(inner);
        return RustTypeMarker::CompactOf(Box::new(b));
    }
    if n >= 2 && s.get_char(0) == '[' && s.get_char(n - 1) == ']' {
        proof {
            reveal_strlit("Vec<");
            reveal_strlit("Option<");
            reveal_strlit("Compact<");
            assert(array_form(s@));
            assert(!vec_form(s@) && !option_form(s@) && !compact_form(s@));
            assert(s@ != "null"@) by {
                reveal_strlit("null");
            }
        }
        let inner = s.substring_char(1, n - 1);
        let ni = inner.unicode_len();
        let j = find_top(inner, ';');
        if j < ni {
            let count_text = trim_str(inner.substring_char(j + 1, ni));
            match parse_array_count(count_text) {
                Some(cnt) => {
                    let left = trim_str(inner.substring_char(0, j));
                    proof {
                        lemma_trim_len(inner@.subrange(0, j as int));
                    }
                    let b = parse_trimmed(left);
                    return RustTypeMarker::FixedArray(Box::new(b), cnt);
                },
                None => {
                    return RustTypeMarker::TypePointer(s.to_owned());
                },
            }
        } else {
            return RustTypeMarker::TypePointer(s.to_owned());
        }
    }
    if n >= 2 && s.get_char(0) == '(' && s.get_char(n - 1) == ')' {
        proof {
            reveal_strlit("Vec<");
            reveal_strlit("Option<");
            reveal_strlit("Compact<");
            assert(tuple_form(s@));
            assert(!vec_form(s@) && !option_form(s@) && !compact_form(s@) && !array_form(s@));
            assert(s@ != "null"@) by {
                reveal_strlit("null");
            }
        }
        let inner = s.substring_char(1, n - 1);
        let parts = split_top_str(inner);
        let ghost sparts = split_top(inner@);
        proof {
            lemma_split_top_shape(inner@);
        }
        let mut es: Vec<RustTypeMarker> = Vec::new();
        let mut i: usize = 0;
        while i < parts.len()
            invariant
                n == s@.len(),
                n >= 2,
                tuple_form(s@),
                inner@ == s@.subrange(1, n - 1),
                sparts == split_top(inner@),
                parts@.len() == sparts.len(),
                forall|k: int| 0 <= k < parts@.len() ==> (#[trigger] parts@[k])@ == sparts[k],
                forall|k: int| 0 <= k < sparts.len() ==> (#[trigger] sparts[k]).len() <= inner@.len(),
                i <= parts@.len(),
                es@.len() == i,
                forall|k: int|
                    0 <= k < i ==> type_parses_to(trim_seq(#[trigger] sparts[k]), es@[k]),
            decreases parts@.len() - i,
        {
            let piece = trim_str(parts[i].as_str());
            proof {
                lemma_trim_len(sparts[i as int]);
            }
            let e = parse_trimmed(piece);
            es.push(e);
            i = i + 1;
        }
        return RustTypeMarker::Tuple(es);
    }
    let primitive = str_is(s, "u8") || str_is(s, "u16") || str_is(s, "u32") || str_is(s, "u64")
        || str_is(s, "u128") || str_is(s, "i8") || str_is(s, "i16") || str_is(s, "i32") || str_is(
        s,
        "i64",
    ) || str_is(s, "i128") || str_is(s, "bool") || str_is(s, "String") || str_is(s, "Bytes");
    proof {
        grammar_shape_facts(s@);
    }
    if primitive {
        RustTypeMarker::Primitive(s.to_owned())
    } else {
        RustTypeMarker::TypePointer(s.to_owned())
    }
}

proof fn grammar_shape_facts(s: Seq<char>)
    ensures
        is_primitive_name(s) ==> s != "null"@ && !vec_form(s) && !option_form(s) && !compact_form(
            s,
        ) && !array_form(s) && !tuple_form(s),
{
    reveal_strlit("null");
    reveal_strlit("Vec<");
    reveal_strlit("Option<");
    reveal_strlit("Compact<");
    reveal_strlit("u8");
    reveal_strlit("u16");
    reveal_strlit("u32");
    reveal_strlit("u64");
    reveal_strlit("u128");
    reveal_strlit("i8");
    reveal_strlit("i16");
    reveal_strlit("i32");
    reveal_strlit("i64");
    reveal_strlit("i128");
    reveal_strlit("bool");
    reveal_strlit("String");
    reveal_strlit("Bytes");
    if is_primitive_name(s) {
        // every primitive name opens with a letter and is shorter than
        // the `Option<`/`Compact<` forms; the two five-plus-letter names
        // do not open with `Vec<`
        assert(s.len() <= 6);
        assert(s[0] == 'u' || s[0] == 'i' || s[0] == 'b' || s[0] == 'S' || s[0] == 'B');
        if vec_form(s) {
            assert(s.subrange(0, 4)[0] == s[0]);
            assert(("Vec<"@)[0] == 'V');
            assert(false);
        }
    }
}

} // verus!
