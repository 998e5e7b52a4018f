//! The event-argument grammar: a naive representation of the argument
//! types a module's events carry, parsed from strings such as
//! `Vec<(AccountId, Balance)>`.
//!
//! ```text
//! EventArg := "Vec<" EventArg ">" | "(" EventArg ("," EventArg)* ")" | Ident
//! ```
//!
//! Tuples are split at the commas that stand at bracket depth zero, and
//! whitespace around tuple elements is stripped; mismatched brackets are
//! reported as errors.  An argument can be rendered back to a string, and
//! rendering followed by parsing returns the argument it started from
//! (see `lemma_render_parses` and `lemma_parses_unique` for the exact
//! statement and its scope).

use vstd::prelude::*;
use crate::error::Error;
use crate::text::is_space_char;
use crate::text::trim_seq;
use crate::text::trim_str;
use crate::text::lemma_trim_len;
use crate::text::lemma_trim_stable;
use crate::text::chars_of;
use crate::text::string_from_chars;
use crate::text::balanced;
use crate::text::top_comma_free;
use crate::text::run_depth;
use crate::text::depth_step;
use crate::text::split_top;
use crate::text::split_top_str;
use crate::text::lemma_split_top_shape;
use crate::text::lemma_split_top_whole;
use crate::text::lemma_split_top_prepend;
use crate::text::lemma_run_depth_prefix;
use crate::text::lemma_run_depth_concat;
use crate::text::lemma_balanced_concat;

verus! {

/// Representation of event argument types: a bare identifier, a
/// sequence, or a tuple.
///
/// Used to calculate the size of an instance of an event variant without
/// having the concrete type, so the raw bytes can be extracted from an
/// encoded event record.
#[derive(Debug, PartialEq, Eq)]
pub enum EventArg {
    Primitive(String),
    VecOf(Box<EventArg>),
    Tuple(Vec<EventArg>),
}

/// Does `s` open with the four characters `Vec<`?
pub open spec fn vec_open(s: Seq<char>) -> bool {
    s.len() >= 4 && s[0] == 'V' && s[1] == 'e' && s[2] == 'c' && s[3] == '<'
}

/// `a` is the parse of `s`: the relational statement of the grammar.
pub open spec fn parses_to(s: Seq<char>, a: EventArg) -> bool
    decreases s.len(),
    via parses_to_dec
{
    if vec_open(s) {
        if s[s.len() - 1] == '>' {
            match a {
                EventArg::VecOf(inner) => parses_to(s.subrange(4, s.len() - 1), *inner),
                _ => false,
            }
        } else {
            false
        }
    } else if s.len() > 0 && s[0] == '(' {
        if s[s.len() - 1] == ')' {
            let parts = split_top(s.subrange(1, s.len() - 1));
            match a {
                EventArg::Tuple(es) => es@.len() == parts.len() && (forall|i: int|
                    0 <= i < parts.len() ==> parses_to(trim_seq(#[trigger] parts[i]), es@[i])),
                _ => false,
            }
        } else {
            false
        }
    } else {
        match a {
            EventArg::Primitive(p) => p@ == s,
            _ => false,
        }
    }
}

#[via_fn]
proof fn parses_to_dec(s: Seq<char>, a: EventArg) {
    grammar_decreases(s);
}

/// The parse of `s` succeeds: same branching as `parses_to`, without the
/// parsed value.
pub open spec fn parse_ok(s: Seq<char>) -> bool
    decreases s.len(),
    via parse_ok_dec
{
    if vec_open(s) {
        s[s.len() - 1] == '>' && parse_ok(s.subrange(4, s.len() - 1))
    } else if s.len() > 0 && s[0] == '(' {
        s[s.len() - 1] == ')' && (forall|i: int|
            0 <= i < split_top(s.subrange(1, s.len() - 1)).len() ==> parse_ok(
                trim_seq(#[trigger] split_top(s.subrange(1, s.len() - 1))[i]),
            ))
    } else {
        true
    }
}

#[via_fn]
proof fn parse_ok_dec(s: Seq<char>) {
    grammar_decreases(s);
}

proof fn grammar_decreases(s: Seq<char>)
    ensures
        vec_open(s) && s[s.len() - 1] == '>' ==> s.len() >= 5,
        s.len() > 0 && s[0] == '(' && s[s.len() - 1] == ')' ==> s.len() >= 2 && (forall|i: int|
            0 <= i < split_top(s.subrange(1, s.len() - 1)).len() ==> trim_seq(
                #[trigger] split_top(s.subrange(1, s.len() - 1))[i],
            ).len() < s.len()),
{
    if vec_open(s) && s[s.len() - 1] == '>' {
        if s.len() == 4 {
            assert(s[3] == '<');
        }
    }
    if s.len() > 0 && s[0] == '(' && s[s.len() - 1] == ')' {
        if s.len() == 1 {
            assert(s[0] == '(' && s[0] == ')');
        }
        let inner = s.subrange(1, s.len() - 1);
        lemma_split_top_shape(inner);
        assert forall|i: int| 0 <= i < split_top(inner).len() implies trim_seq(
            #[trigger] split_top(inner)[i],
        ).len() < s.len() by {
            lemma_trim_len(split_top(inner)[i]);
        }
    }
}

/// The canonical string form of an argument: identifiers stand alone,
/// sequences read `Vec<inner>`, tuples read `(a,b,...)`.
pub open spec fn rendered(a: EventArg) -> Seq<char>
    decreases a,
    via rendered_dec
{
    match a {
        EventArg::Primitive(p) => p@,
        EventArg::VecOf(b) => seq!['V', 'e', 'c', '<'] + rendered(*b) + seq!['>'],
        EventArg::Tuple(es) => seq!['('] + rendered_list(es@) + seq![')'],
    }
}

/// The elements of a tuple rendered in order, joined by commas.
pub open spec fn rendered_list(es: Seq<EventArg>) -> Seq<char>
    decreases es,
    via rendered_list_dec
{
    if es.len() == 0 {
        Seq::empty()
    } else if es.len() == 1 {
        rendered(es[0])
    } else {
        rendered(es[0]) + seq![','] + rendered_list(es.drop_first())
    }
}

#[via_fn]
proof fn rendered_dec(a: EventArg) {
    broadcast use vstd::std_specs::vec::axiom_vec_decreases_to_view;

    match a {
        EventArg::Tuple(es) => {
            assert(decreases_to!(a => es));
            assert(decreases_to!(es => es@));
        },
        _ => {},
    }
}

#[via_fn]
proof fn rendered_list_dec(es: Seq<EventArg>) {
    broadcast use vstd::seq::axiom_seq_index_decreases, vstd::seq::axiom_seq_subrange_decreases;

    if es.len() > 0 {
        assert(decreases_to!(es => es[0]));
        if es.len() > 1 {
            assert(es.drop_first() == es.subrange(1, es.len() as int));
            assert(decreases_to!(es => es.drop_first()));
        }
    }
}

/// `a` may stand as a tuple element: the tuple is split at the commas
/// that stand at bracket depth zero, so a bare identifier must hold no
/// top-level comma and no leading or trailing whitespace (tuple elements
/// are trimmed).  The bracketed forms satisfy both by their shape.
pub open spec fn tuple_elem_ok(a: EventArg) -> bool {
    match a {
        EventArg::Primitive(p) => top_comma_free(p@) && (p@.len() > 0 ==> !is_space_char(p@[0])
            && !is_space_char(p@[p@.len() - 1])),
        _ => true,
    }
}

/// `a` can be told apart from the bracketed forms when rendered: no
/// identifier in it opens like `Vec<` or a tuple, every identifier is
/// bracket-balanced, every tuple has at least one element, and tuple
/// elements respect `tuple_elem_ok`.
pub open spec fn wf_event_arg(a: EventArg) -> bool
    decreases a,
    via wf_event_arg_dec
{
    match a {
        EventArg::Primitive(p) => !vec_open(p@) && (p@.len() > 0 ==> p@[0] != '(') && balanced(
            p@,
        ),
        EventArg::VecOf(b) => wf_event_arg(*b),
        EventArg::Tuple(es) => es@.len() >= 1 && (forall|i: int|
            0 <= i < es@.len() ==> wf_event_arg(#[trigger] es@[i]) && tuple_elem_ok(es@[i])),
    }
}

#[via_fn]
proof fn wf_event_arg_dec(a: EventArg) {
    broadcast use
        vstd::std_specs::vec::axiom_vec_decreases_to_view,
        vstd::seq::axiom_seq_index_decreases;

    match a {
        EventArg::Tuple(es) => {
            assert(decreases_to!(a => es));
            assert(decreases_to!(es => es@));
        },
        _ => {},
    }
}

/// The leaf identifiers of `a` in left-to-right order.
pub open spec fn spec_primitives(a: EventArg) -> Seq<Seq<char>>
    decreases a,
    via spec_primitives_dec
{
    match a {
        EventArg::Primitive(p) => seq![p@],
        EventArg::VecOf(b) => spec_primitives(*b),
        EventArg::Tuple(es) => primitives_list(es@),
    }
}

/// The leaf identifiers of a list of arguments, concatenated in order.
pub open spec fn primitives_list(es: Seq<EventArg>) -> Seq<Seq<char>>
    decreases es,
    via primitives_list_dec
{
    if es.len() == 0 {
        Seq::empty()
    } else {
        spec_primitives(es[0]) + primitives_list(es.drop_first())
    }
}

#[via_fn]
proof fn spec_primitives_dec(a: EventArg) {
    broadcast use vstd::std_specs::vec::axiom_vec_decreases_to_view;

    match a {
        EventArg::Tuple(es) => {
            assert(decreases_to!(a => es));
            assert(decreases_to!(es => es@));
        },
        _ => {},
    }
}

#[via_fn]
proof fn primitives_list_dec(es: Seq<EventArg>) {
    broadcast use vstd::seq::axiom_seq_index_decreases, vstd::seq::axiom_seq_subrange_decreases;

    if es.len() > 0 {
        assert(decreases_to!(es => es[0]));
        assert(es.drop_first() == es.subrange(1, es.len() as int));
        assert(decreases_to!(es => es.drop_first()));
    }
}

/// Joining one more element on the right extends the rendered list by a
/// comma (when anything precedes it) and the element's rendering.
pub proof fn lemma_rendered_list_snoc(xs: Seq<EventArg>, y: EventArg)
    ensures
        xs.len() == 0 ==> rendered_list(xs.push(y)) == rendered(y),
        xs.len() > 0 ==> rendered_list(xs.push(y)) == rendered_list(xs) + seq![','] + rendered(y),
    decreases xs.len(),
{
    let w = xs.push(y);
    if xs.len() == 0 {
        assert(w.len() == 1);
        assert(w[0] == y);
    } else if xs.len() == 1 {
        assert(w.len() == 2);
        assert(w[0] == xs[0]);
        assert(w.drop_first() =~= seq![y]);
        assert(rendered_list(seq![y]) == rendered(seq![y][0]));
        assert(seq![y][0] == y);
    } else {
        assert(w[0] == xs[0]);
        assert(w.drop_first() =~= xs.drop_first().push(y));
        lemma_rendered_list_snoc(xs.drop_first(), y);
        assert(rendered_list(w) == rendered(xs[0]) + seq![','] + rendered_list(w.drop_first()));
        assert(rendered_list(xs) == rendered(xs[0]) + seq![','] + rendered_list(xs.drop_first()));
        assert(rendered_list(w) =~= rendered_list(xs) + seq![','] + rendered(y));
    }
}

/// The leaves of a list with one more element on the right are the
/// leaves of the list followed by the element's leaves.
pub proof fn lemma_primitives_list_snoc(xs: Seq<EventArg>, y: EventArg)
    ensures
        primitives_list(xs.push(y)) =~= primitives_list(xs) + spec_primitives(y),
    decreases xs.len(),
{
    let w = xs.push(y);
    if xs.len() == 0 {
        assert(w.len() == 1);
        assert(w[0] == y);
        assert(w.drop_first() =~= Seq::<EventArg>::empty());
        assert(primitives_list(w) == spec_primitives(y) + primitives_list(w.drop_first()));
        assert(primitives_list(w.drop_first()) == Seq::<Seq<char>>::empty());
        assert(primitives_list(xs) == Seq::<Seq<char>>::empty());
    } else {
        assert(w[0] == xs[0]);
        assert(w.drop_first() =~= xs.drop_first().push(y));
        lemma_primitives_list_snoc(xs.drop_first(), y);
        assert(primitives_list(w) == spec_primitives(xs[0]) + primitives_list(w.drop_first()));
        assert(primitives_list(xs) == spec_primitives(xs[0]) + primitives_list(xs.drop_first()));
    }
}

/// `a` and `b` have the same shape and the same identifier text
/// everywhere: the equality the grammar can speak about.
pub open spec fn arg_like(a: EventArg, b: EventArg) -> bool
    decreases a,
    via arg_like_dec
{
    match a {
        EventArg::Primitive(p) => b matches EventArg::Primitive(q) && p@ == q@,
        EventArg::VecOf(x) => b matches EventArg::VecOf(y) && arg_like(*x, *y),
        EventArg::Tuple(xs) => b matches EventArg::Tuple(ys) && xs@.len() == ys@.len() && (forall|
            i: int,
        |
            0 <= i < xs@.len() ==> arg_like(#[trigger] xs@[i], ys@[i])),
    }
}

#[via_fn]
proof fn arg_like_dec(a: EventArg, b: EventArg) {
    broadcast use vstd::std_specs::vec::axiom_vec_decreases_to_view;

    match a {
        EventArg::Tuple(xs) => {
            assert(decreases_to!(a => xs));
            assert(decreases_to!(xs => xs@));
        },
        _ => {},
    }
}

proof fn lemma_vec_wrap(mid: Seq<char>)
    requires
        balanced(mid),
    ensures
        balanced(seq!['V', 'e', 'c', '<'] + mid + seq!['>']),
        top_comma_free(seq!['V', 'e', 'c', '<'] + mid + seq!['>']),
{
    reveal_with_fuel(run_depth, 8);
    let a = seq!['V', 'e', 'c', '<'];
    let s0 = a + mid;
    let s = s0 + seq!['>'];
    assert(run_depth(a, 0) == 0);
    assert(run_depth(a, 1) == depth_step(0, 'V'));
    assert(run_depth(a, 2) == depth_step(run_depth(a, 1), 'e'));
    assert(run_depth(a, 3) == depth_step(run_depth(a, 2), 'c'));
    assert(run_depth(a, 4) == depth_step(run_depth(a, 3), '<'));
    assert(run_depth(a, 4) == 1);
    assert forall|k: int| 0 <= k <= a.len() implies run_depth(s0, k) == run_depth(a, k) by {
        lemma_run_depth_prefix(a, mid, k);
    }
    assert forall|k: int| 0 <= k <= mid.len() implies run_depth(s0, 4 + k) == 1 + run_depth(
        mid,
        k,
    ) by {
        lemma_run_depth_concat(a, mid, k);
    }
    assert forall|i: int| 0 <= i <= s0.len() implies run_depth(s, i) == run_depth(s0, i) by {
        lemma_run_depth_prefix(s0, seq!['>'], i);
    }
    lemma_run_depth_concat(s0, seq!['>'], 1);
    assert(run_depth(seq!['>'], 1) == depth_step(0, '>'));
    assert(run_depth(s, s.len() as int) == 0);
    assert forall|i: int| 0 <= i <= s.len() implies run_depth(s, i) >= 0 by {
        if i <= 4 {
            assert(run_depth(s, i) == run_depth(a, i));
        } else if i <= 4 + mid.len() {
            assert(run_depth(s, i) == 1 + run_depth(mid, i - 4));
        }
    }
    assert forall|i: int| 0 <= i < s.len() implies !(run_depth(s, i) == 0 && s[i] == ',') by {
        if i < 4 {
            assert(s[i] == a[i]);
        } else if i < 4 + mid.len() {
            assert(run_depth(s, i) == 1 + run_depth(mid, i - 4));
        } else {
            assert(s[i] == '>');
        }
    }
}

proof fn lemma_tuple_wrap(mid: Seq<char>)
    requires
        balanced(mid),
    ensures
        balanced(seq!['('] + mid + seq![')']),
        top_comma_free(seq!['('] + mid + seq![')']),
{
    reveal_with_fuel(run_depth, 4);
    let a = seq!['('];
    let s0 = a + mid;
    let s = s0 + seq![')'];
    assert(run_depth(a, 0) == 0);
    assert(run_depth(a, 1) == depth_step(0, '('));
    assert(run_depth(a, 1) == 1);
    assert forall|k: int| 0 <= k <= a.len() implies run_depth(s0, k) == run_depth(a, k) by {
        lemma_run_depth_prefix(a, mid, k);
    }
    assert forall|k: int| 0 <= k <= mid.len() implies run_depth(s0, 1 + k) == 1 + run_depth(
        mid,
        k,
    ) by {
        lemma_run_depth_concat(a, mid, k);
    }
    assert forall|i: int| 0 <= i <= s0.len() implies run_depth(s, i) == run_depth(s0, i) by {
        lemma_run_depth_prefix(s0, seq![')'], i);
    }
    lemma_run_depth_concat(s0, seq![')'], 1);
    assert(run_depth(seq![')'], 1) == depth_step(0, ')'));
    assert(run_depth(s, s.len() as int) == 0);
    assert forall|i: int| 0 <= i <= s.len() implies run_depth(s, i) >= 0 by {
        if i <= 1 {
            assert(run_depth(s, i) == run_depth(a, i));
        } else if i <= 1 + mid.len() {
            assert(run_depth(s, i) == 1 + run_depth(mid, i - 1));
        }
    }
    assert forall|i: int| 0 <= i < s.len() implies !(run_depth(s, i) == 0 && s[i] == ',') by {
        if i == 0 {
            assert(s[i] == '(');
        } else if i < 1 + mid.len() {
            assert(run_depth(s, i) == 1 + run_depth(mid, i - 1));
        } else {
            assert(s[i] == ')');
        }
    }
}

/// The rendering of a well-formed argument is bracket-balanced.
pub proof fn lemma_rendered_balanced(a: EventArg)
    requires
        wf_event_arg(a),
    ensures
        balanced(rendered(a)),
    decreases a,
{
    match a {
        EventArg::Primitive(_) => {},
        EventArg::VecOf(b) => {
            lemma_rendered_balanced(*b);
            lemma_vec_wrap(rendered(*b));
        },
        EventArg::Tuple(es) => {
            assert(decreases_to!(a => a->Tuple_0));
            assert(decreases_to!(a->Tuple_0 => a->Tuple_0@));
            assert(a->Tuple_0@ == es@);
            lemma_list_balanced(es@);
            lemma_tuple_wrap(rendered_list(es@));
        },
    }
}

proof fn lemma_list_balanced(es: Seq<EventArg>)
    requires
        forall|i: int| 0 <= i < es.len() ==> wf_event_arg(#[trigger] es[i]),
    ensures
        balanced(rendered_list(es)),
    decreases es,
{
    broadcast use vstd::seq::axiom_seq_index_decreases, vstd::seq::axiom_seq_subrange_decreases;

    if es.len() == 0 {
        assert(balanced(Seq::<char>::empty()));
    } else if es.len() == 1 {
        assert(decreases_to!(es => es[0]));
        lemma_rendered_balanced(es[0]);
    } else {
        assert(decreases_to!(es => es[0]));
        lemma_rendered_balanced(es[0]);
        assert(es.drop_first() == es.subrange(1, es.len() as int));
        assert(decreases_to!(es => es.drop_first()));
        lemma_list_balanced(es.drop_first());
        assert(balanced(seq![','])) by {
            reveal_with_fuel(run_depth, 3);
            assert(run_depth(seq![','], 1) == depth_step(0, ','));
        }
        lemma_balanced_concat(rendered(es[0]), seq![',']);
        lemma_balanced_concat(rendered(es[0]) + seq![','], rendered_list(es.drop_first()));
        assert(rendered(es[0]) + seq![','] + rendered_list(es.drop_first()) =~= (rendered(es[0])
            + seq![',']) + rendered_list(es.drop_first()));
    }
}

/// The rendering of a well-formed tuple element has no comma at bracket
/// depth zero.
proof fn lemma_rendered_tcf(e: EventArg)
    requires
        wf_event_arg(e),
        tuple_elem_ok(e),
    ensures
        top_comma_free(rendered(e)),
{
    match e {
        EventArg::Primitive(_) => {},
        EventArg::VecOf(b) => {
            lemma_rendered_balanced(*b);
            lemma_vec_wrap(rendered(*b));
        },
        EventArg::Tuple(es) => {
            lemma_list_balanced(es@);
            lemma_tuple_wrap(rendered_list(es@));
        },
    }
}

/// Splitting the comma-joined renderings of well-formed tuple elements
/// at top-level commas recovers each rendering.
pub proof fn lemma_split_of_join(es: Seq<EventArg>)
    requires
        es.len() >= 1,
        forall|i: int|
            0 <= i < es.len() ==> balanced(rendered(#[trigger] es[i])) && top_comma_free(
                rendered(es[i]),
            ),
    ensures
        split_top(rendered_list(es)).len() == es.len(),
        forall|i: int|
            0 <= i < es.len() ==> #[trigger] split_top(rendered_list(es))[i] == rendered(es[i]),
    decreases es.len(),
{
    if es.len() == 1 {
        lemma_split_top_whole(rendered(es[0]));
    } else {
        let rest = es.drop_first();
        lemma_split_top_prepend(rendered(es[0]), rendered_list(rest));
        assert(rendered_list(es) == rendered(es[0]) + seq![','] + rendered_list(rest));
        lemma_split_of_join(rest);
        let whole = split_top(rendered_list(es));
        assert(whole =~= seq![rendered(es[0])] + split_top(rendered_list(rest)));
        assert forall|i: int| 0 <= i < es.len() implies #[trigger] whole[i] == rendered(es[i]) by {
            if i > 0 {
                assert(whole[i] == split_top(rendered_list(rest))[i - 1]);
                assert(rest[i - 1] == es[i]);
            }
        }
    }
}

/// A well-formed tuple element's rendering is unchanged by trimming.
pub proof fn lemma_elem_trim_stable(e: EventArg)
    requires
        tuple_elem_ok(e),
    ensures
        trim_seq(rendered(e)) == rendered(e),
{
    match e {
        EventArg::Primitive(p) => {
            lemma_trim_stable(p@);
        },
        EventArg::VecOf(_) => {
            let s = rendered(e);
            assert(s[0] == 'V');
            assert(s[s.len() - 1] == '>');
            lemma_trim_stable(s);
        },
        EventArg::Tuple(_) => {
            let s = rendered(e);
            assert(s[0] == '(');
            assert(s[s.len() - 1] == ')');
            lemma_trim_stable(s);
        },
    }
}

/// Rendering a well-formed argument and parsing the result yields the
/// argument back: the parse relation accepts the rendering with the
/// original argument.
pub proof fn lemma_render_parses(a: EventArg)
    requires
        wf_event_arg(a),
    ensures
        parse_ok(rendered(a)),
        parses_to(rendered(a), a),
    decreases a,
{
    match a {
        EventArg::Primitive(p) => {
            assert(rendered(a) == p@);
        },
        EventArg::VecOf(b) => {
            lemma_render_parses(*b);
            let s = rendered(a);
            let r = rendered(*b);
            assert(vec_open(s));
            assert(s[s.len() - 1] == '>');
            assert(s.subrange(4, s.len() - 1) =~= r);
        },
        EventArg::Tuple(es) => {
            let s = rendered(a);
            let body = rendered_list(es@);
            assert(s[0] == '(');
            assert(s[s.len() - 1] == ')');
            assert(!vec_open(s));
            let inner = s.subrange(1, s.len() - 1);
            assert(inner =~= body);
            assert forall|i: int| 0 <= i < es@.len() implies balanced(
                rendered(#[trigger] es@[i]),
            ) && top_comma_free(rendered(es@[i])) by {
                lemma_rendered_balanced(es@[i]);
                lemma_rendered_tcf(es@[i]);
            }
            lemma_split_of_join(es@);
            let parts = split_top(inner);
            assert(parts.len() == es@.len());
            assert forall|i: int| 0 <= i < parts.len() implies parse_ok(
                trim_seq(#[trigger] parts[i]),
            ) && parses_to(trim_seq(parts[i]), es@[i]) by {
                assert(parts[i] == rendered(es@[i]));
                lemma_elem_trim_stable(es@[i]);
                assert(decreases_to!(a => a->Tuple_0));
                assert(decreases_to!(a->Tuple_0 => a->Tuple_0@));
                assert(a->Tuple_0@ == es@);
                assert(decreases_to!(es@ => es@[i]));
                lemma_render_parses(es@[i]);
            }
        },
    }
}

/// Two parses of one string agree: the grammar is unambiguous.
pub proof fn lemma_parses_unique(s: Seq<char>, b1: EventArg, b2: EventArg)
    requires
        parses_to(s, b1),
        parses_to(s, b2),
    ensures
        arg_like(b1, b2),
    decreases s.len(),
{
    grammar_decreases(s);
    if vec_open(s) {
        let x = b1->VecOf_0;
        let y = b2->VecOf_0;
        lemma_parses_unique(s.subrange(4, s.len() - 1), *x, *y);
    } else if s.len() > 0 && s[0] == '(' {
        let parts = split_top(s.subrange(1, s.len() - 1));
        let xs = b1->Tuple_0;
        let ys = b2->Tuple_0;
        assert forall|i: int| 0 <= i < xs@.len() implies arg_like(#[trigger] xs@[i], ys@[i]) by {
            lemma_parses_unique(trim_seq(parts[i]), xs@[i], ys@[i]);
        }
    } else {
    }
}

/// The round trip: every parse of the rendering of a well-formed
/// argument has the argument's own shape and identifier text.
pub proof fn lemma_round_trip(a: EventArg, b: EventArg)
    requires
        wf_event_arg(a),
        parses_to(rendered(a), b),
    ensures
        arg_like(a, b),
{
    lemma_render_parses(a);
    lemma_parses_unique(rendered(a), a, b);
}

fn opens_like_vec(s: &str) -> (r: bool)
    ensures
        r == vec_open(s@),
{
    let n = s.unicode_len();
    n >= 4 && s.get_char(0) == 'V' && s.get_char(1) == 'e' && s.get_char(2) == 'c'
        && s.get_char(3) == '<'
}

impl EventArg {
    /// Parses an argument string.  Succeeds exactly on strings the
    /// grammar accepts, and the value returned is the parse of the
    /// input; a rejected string is reported as `InvalidEventArg` carrying
    /// the failing (sub)term and the reason for its rejection.
    pub fn from_str(s: &str) -> (r: Result<EventArg, Error>)
        ensures
            r is Ok <==> parse_ok(s@),
            r matches Ok(a) ==> parses_to(s@, a),
            r matches Err(e) ==> (e matches Error::InvalidEventArg(inp, reason) && !parse_ok(inp@)
                && ((vec_open(inp@) && inp@[inp@.len() - 1] != '>' && reason@
                == "Expected closing `>` for `Vec`"@) || (!vec_open(inp@) && inp@.len() > 0
                && inp@[0] == '(' && inp@[inp@.len() - 1] != ')' && reason@
                == "Expecting closing `)` for tuple"@))),
            vec_open(s@) && s@[s@.len() - 1] != '>' ==> (r matches Err(e) && (e matches
                Error::InvalidEventArg(inp, reason) && inp@ == s@ && reason@
                == "Expected closing `>` for `Vec`"@)),
            !vec_open(s@) && s@.len() > 0 && s@[0] == '(' && s@[s@.len() - 1] != ')' ==> (r matches
                Err(e) && (e matches Error::InvalidEventArg(inp, reason) && inp@ == s@ && reason@
                == "Expecting closing `)` for tuple"@)),
        decreases s@.len(),
    {
        let n = s.unicode_len();
        if opens_like_vec(s) {
            if s.get_char(n - 1) == '>' {
                proof {
                    if n == 4 {
                        assert(s@[3] == '<');
                    }
                }
                let inner = s.substring_char(4, n - 1);
                match EventArg::from_str(inner) {
                    Ok(a) => Ok(EventArg::VecOf(Box::new(a))),
                    Err(e) => Err(e),
                }
            } else {
                Err(Error::InvalidEventArg(s.to_owned(), "Expected closing `>` for `Vec`"))
            }
        } else if n >= 1 && s.get_char(0) == '(' {
            if s.get_char(n - 1) == ')' {
                proof {
                    if n == 1 {
                        assert(s@[0] == '(' && s@[0] == ')');
                    }
                }
                let inner = s.substring_char(1, n - 1);
                let parts = split_top_str(inner);
                let ghost sparts = split_top(inner@);
                proof {
                    lemma_split_top_shape(inner@);
                }
                let mut args: Vec<EventArg> = Vec::new();
                let mut i: usize = 0;
                while i < parts.len()
                    invariant
                        n == s@.len(),
                        n >= 2,
                        !vec_open(s@),
                        s@[0] == '(',
                        s@[s@.len() - 1] == ')',
                        inner@ == s@.subrange(1, n - 1),
                        sparts == split_top(inner@),
                        parts@.len() == sparts.len(),
                        forall|k: int| 0 <= k < parts@.len() ==> (#[trigger] parts@[k])@ == sparts[k],
                        forall|k: int| 0 <= k < sparts.len() ==> (#[trigger] sparts[k]).len() <= inner@.len(),
                        i <= parts@.len(),
                        args@.len() == i,
                        forall|k: int| 0 <= k < i ==> parses_to(trim_seq(#[trigger] sparts[k]), args@[k]),
                        forall|k: int| 0 <= k < i ==> parse_ok(trim_seq(#[trigger] sparts[k])),
                    decreases parts@.len() - i,
                {
                    let piece = trim_str(parts[i].as_str());
                    proof {
                        crate::text::lemma_trim_len(sparts[i as int]);
                    }
                    match EventArg::from_str(piece) {
                        Ok(a) => {
                            args.push(a);
                        },
                        Err(e) => {
                            proof {
                                assert(!parse_ok(trim_seq(sparts[i as int])));
                                assert(s@.subrange(1, s@.len() - 1) == inner@);
                                assert(!parse_ok(
                                    trim_seq(split_top(s@.subrange(1, s@.len() - 1))[i as int]),
                                ));
                                assert(!parse_ok(s@));
                            }
                            return Err(e);
                        },
                    }
                    i = i + 1;
                }
                proof {
                    assert(s@.subrange(1, s@.len() - 1) == inner@);
                    assert(parse_ok(s@));
                    assert(parses_to(s@, EventArg::Tuple(args)));
                }
                Ok(EventArg::Tuple(args))
            } else {
                Err(Error::InvalidEventArg(s.to_owned(), "Expecting closing `)` for tuple"))
            }
        } else {
            Ok(EventArg::Primitive(s.to_owned()))
        }
    }

    /// Renders the argument back to its canonical string form.
    pub fn render(&self) -> (r: String)
        ensures
            r@ == rendered(*self),
    {
        let v = self.render_chars();
        string_from_chars(&v)
    }

    fn render_chars(&self) -> (v: Vec<char>)
        ensures
            v@ == rendered(*self),
        decreases *self,
    {
        match self {
            EventArg::Primitive(p) => chars_of(p.as_str()),
            EventArg::VecOf(b) => {
                let mut v: Vec<char> = Vec::new();
                v.push('V');
                v.push('e');
                v.push('c');
                v.push('<');
                let mut inner = b.render_chars();
                v.append(&mut inner);
                v.push('>');
                proof {
                    assert(v@ =~= rendered(*self));
                }
                v
            },
            EventArg::Tuple(es) => {
                let mut v: Vec<char> = Vec::new();
                v.push('(');
                let mut i: usize = 0;
                while i < es.len()
                    invariant
                        *self == EventArg::Tuple(*es),
                        i <= es@.len(),
                        v@ == seq!['('] + rendered_list(es@.subrange(0, i as int)),
                    decreases es@.len() - i,
                {
                    if i > 0 {
                        v.push(',');
                    }
                    proof {
                        broadcast use
                            vstd::std_specs::vec::axiom_vec_decreases_to_view,
                            vstd::seq::axiom_seq_index_decreases;

                        assert(*self == EventArg::Tuple(*es));
                        assert(decreases_to!(*self => self->Tuple_0));
                        assert(decreases_to!(self->Tuple_0 => self->Tuple_0@));
                        assert(self->Tuple_0@ == es@);
                        assert(decreases_to!(es@ => es@[i as int]));
                    }
                    let mut e = es[i].render_chars();
                    v.append(&mut e);
                    proof {
                        lemma_rendered_list_snoc(es@.subrange(0, i as int), es@[i as int]);
                        assert(es@.subrange(0, i as int).push(es@[i as int]) =~= es@.subrange(
                            0,
                            i as int + 1,
                        ));
                        assert(v@ =~= seq!['('] + rendered_list(es@.subrange(0, i as int + 1)));
                    }
                    i = i + 1;
                }
                v.push(')');
                proof {
                    assert(es@.subrange(0, es@.len() as int) =~= es@);
                    assert(v@ =~= rendered(*self));
                }
                v
            },
        }
    }

    /// Returns all leaf identifiers of this argument, in left-to-right
    /// order.
    pub fn primitives(&self) -> (r: Vec<String>)
        ensures
            r@.len() == spec_primitives(*self).len(),
            forall|k: int| 0 <= k < r@.len() ==> (#[trigger] r@[k])@ == spec_primitives(*self)[k],
        decreases *self,
    {
        match self {
            EventArg::Primitive(p) => {
                let mut r: Vec<String> = Vec::new();
                r.push(p.clone());
                r
            },
            EventArg::VecOf(b) => b.primitives(),
            EventArg::Tuple(es) => {
                let mut r: Vec<String> = Vec::new();
                let mut i: usize = 0;
                while i < es.len()
                    invariant
                        *self == EventArg::Tuple(*es),
                        i <= es@.len(),
                        r@.len() == primitives_list(es@.subrange(0, i as int)).len(),
                        forall|k: int|
                            0 <= k < r@.len() ==> (#[trigger] r@[k])@ == primitives_list(
                                es@.subrange(0, i as int),
                            )[k],
                    decreases es@.len() - i,
                {
                    proof {
                        broadcast use
                            vstd::std_specs::vec::axiom_vec_decreases_to_view,
                            vstd::seq::axiom_seq_index_decreases;

                        assert(*self == EventArg::Tuple(*es));
                        assert(decreases_to!(*self => self->Tuple_0));
                        assert(decreases_to!(self->Tuple_0 => self->Tuple_0@));
                        assert(self->Tuple_0@ == es@);
                        assert(decreases_to!(es@ => es@[i as int]));
                    }
                    let mut sub = es[i].primitives();
                    r.append(&mut sub);
                    proof {
                        lemma_primitives_list_snoc(es@.subrange(0, i as int), es@[i as int]);
                        assert(es@.subrange(0, i as int).push(es@[i as int]) =~= es@.subrange(
                            0,
                            i as int + 1,
                        ));
                    }
                    i = i + 1;
                }
                proof {
                    assert(es@.subrange(0, es@.len() as int) =~= es@);
                }
                r
            },
        }
    }

    /// A deep copy of this argument: same shape, same identifier text.
    pub fn duplicate(&self) -> (r: EventArg)
        ensures
            arg_like(*self, r),
        decreases *self,
    {
        match self {
            EventArg::Primitive(p) => EventArg::Primitive(p.clone()),
            EventArg::VecOf(b) => EventArg::VecOf(Box::new(b.duplicate())),
            EventArg::Tuple(es) => {
                let mut out: Vec<EventArg> = Vec::new();
                let mut i: usize = 0;
                while i < es.len()
                    invariant
                        *self == EventArg::Tuple(*es),
                        i <= es@.len(),
                        out@.len() == i,
                        forall|k: int| 0 <= k < i ==> arg_like(#[trigger] es@[k], out@[k]),
                    decreases es@.len() - i,
                {
                    proof {
                        broadcast use
                            vstd::std_specs::vec::axiom_vec_decreases_to_view,
                            vstd::seq::axiom_seq_index_decreases;

                        assert(*self == EventArg::Tuple(*es));
                        assert(decreases_to!(*self => self->Tuple_0));
                        assert(decreases_to!(self->Tuple_0 => self->Tuple_0@));
                        assert(self->Tuple_0@ == es@);
                        assert(decreases_to!(es@ => es@[i as int]));
                    }
                    out.push(es[i].duplicate());
                    i = i + 1;
                }
                proof {
                    assert(arg_like(*self, EventArg::Tuple(out)));
                }
                EventArg::Tuple(out)
            },
        }
    }
}

} // verus!
