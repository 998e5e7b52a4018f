//! The decoded-value model: a generic extrinsic (an optional signature
//! plus a call), its argument values, and their JSON rendering.

use vstd::prelude::*;
use crate::text::dec_seq;
use crate::text::dec_chars;
use crate::text::chars_of;
use crate::text::string_from_chars;
use crate::text::push_str_chars;

verus! {

/// A decoded value: the leaves of a value tree produced by walking SCALE
/// bytes against a resolved type.
#[derive(Debug, PartialEq, Eq)]
pub enum SubstrateType {
    Bool(bool),
    U8(u8),
    U16(u16),
    U32(u32),
    U64(u64),
    U128(u128),
    Str(String),
    Composite(Vec<SubstrateType>),
}

/// `s` with the characters JSON requires escaped (`"` and `\`) preceded
/// by a backslash.
pub open spec fn json_escaped(s: Seq<char>) -> Seq<char>
    decreases s.len(),
{
    if s.len() == 0 {
        Seq::empty()
    } else {
        (if s[0] == '"' || s[0] == '\\' {
            seq!['\\', s[0]]
        } else {
            seq![s[0]]
        }) + json_escaped(s.drop_first())
    }
}

/// The JSON text of a decoded value: numbers in decimal, booleans bare,
/// strings quoted and escaped, composites as arrays.
pub open spec fn json_of_type(t: SubstrateType) -> Seq<char>
    decreases t,
    via json_of_type_dec
{
    match t {
        SubstrateType::Bool(b) => if b {
            seq!['t', 'r', 'u', 'e']
        } else {
            seq!['f', 'a', 'l', 's', 'e']
        },
        SubstrateType::U8(x) => dec_seq(x as nat),
        SubstrateType::U16(x) => dec_seq(x as nat),
        SubstrateType::U32(x) => dec_seq(x as nat),
        SubstrateType::U64(x) => dec_seq(x as nat),
        SubstrateType::U128(x) => dec_seq(x as nat),
        SubstrateType::Str(s) => seq!['"'] + json_escaped(s@) + seq!['"'],
        SubstrateType::Composite(es) => seq!['['] + json_type_list(es@) + seq![']'],
    }
}

/// The JSON texts of the values, joined by commas.
pub open spec fn json_type_list(es: Seq<SubstrateType>) -> Seq<char>
    decreases es,
    via json_type_list_dec
{
    if es.len() == 0 {
        Seq::empty()
    } else if es.len() == 1 {
        json_of_type(es[0])
    } else {
        json_of_type(es[0]) + seq![','] + json_type_list(es.drop_first())
    }
}

#[via_fn]
proof fn json_of_type_dec(t: SubstrateType) {
    broadcast use vstd::std_specs::vec::axiom_vec_decreases_to_view;

    match t {
        SubstrateType::Composite(es) => {
            assert(decreases_to!(t => es));
            assert(decreases_to!(es => es@));
        },
        _ => {},
    }
}

#[via_fn]
proof fn json_type_list_dec(es: Seq<SubstrateType>) {
    broadcast use vstd::seq::axiom_seq_index_decreases, vstd::seq::axiom_seq_subrange_decreases;

    if es.len() > 0 {
        assert(decreases_to!(es => es[0]));
        if es.len() > 1 {
            assert(es.drop_first() == es.subrange(1, es.len() as int));
            assert(decreases_to!(es => es.drop_first()));
        }
    }
}

pub proof fn lemma_json_type_list_snoc(xs: Seq<SubstrateType>, y: SubstrateType)
    ensures
        xs.len() == 0 ==> json_type_list(xs.push(y)) == json_of_type(y),
        xs.len() > 0 ==> json_type_list(xs.push(y)) == json_type_list(xs) + seq![',']
            + json_of_type(y),
    decreases xs.len(),
{
    let w = xs.push(y);
    if xs.len() == 0 {
        assert(w.len() == 1);
        assert(w[0] == y);
    } else if xs.len() == 1 {
        assert(w[0] == xs[0]);
        assert(w.drop_first() =~= seq![y]);
        assert(json_type_list(seq![y]) == json_of_type(seq![y][0]));
        assert(seq![y][0] == y);
    } else {
        assert(w[0] == xs[0]);
        assert(w.drop_first() =~= xs.drop_first().push(y));
        lemma_json_type_list_snoc(xs.drop_first(), y);
        assert(json_type_list(w) =~= json_type_list(xs) + seq![','] + json_of_type(y));
    }
}

impl SubstrateType {
    /// The JSON text of this value, as characters.
    pub fn json_chars(&self) -> (v: Vec<char>)
        ensures
            v@ == json_of_type(*self),
        decreases *self,
    {
        match self {
            SubstrateType::Bool(b) => {
                let mut v: Vec<char> = Vec::new();
                if *b {
                    v.push('t');
                    v.push('r');
                    v.push('u');
                    v.push('e');
                } else {
                    v.push('f');
                    v.push('a');
                    v.push('l');
                    v.push('s');
                    v.push('e');
                }
                proof {
                    assert(v@ =~= json_of_type(*self));
                }
                v
            },
            SubstrateType::U8(x) => dec_chars(*x as u128),
            SubstrateType::U16(x) => dec_chars(*x as u128),
            SubstrateType::U32(x) => dec_chars(*x as u128),
            SubstrateType::U64(x) => dec_chars(*x as u128),
            SubstrateType::U128(x) => dec_chars(*x),
            SubstrateType::Str(s) => {
                let cs = chars_of(s.as_str());
                let mut v: Vec<char> = Vec::new();
                v.push('"');
                let mut i: usize = 0;
                while i < cs.len()
                    invariant
                        cs@ == s@,
                        i <= cs@.len(),
                        v@ == seq!['"'] + json_escaped(s@.subrange(0, i as int)),
                    decreases cs@.len() - i,
                {
                    let c = cs[i];
                    if c == '"' || c == '\\' {
                        v.push('\\');
                    }
                    v.push(c);
                    proof {
                        lemma_json_escaped_snoc(s@.subrange(0, i as int + 1));
                        assert(s@.subrange(0, i as int + 1).drop_last() =~= s@.subrange(
                            0,
                            i as int,
                        ));
                        assert(v@ =~= seq!['"'] + json_escaped(s@.subrange(0, i as int + 1)));
                    }
                    i = i + 1;
                }
                v.push('"');
                proof {
                    assert(s@.subrange(0, s@.len() as int) =~= s@);
                    assert(v@ =~= json_of_type(*self));
                }
                v
            },
            SubstrateType::Composite(es) => {
                let mut v: Vec<char> = Vec::new();
                v.push('[');
                let mut i: usize = 0;
                while i < es.len()
                    invariant
                        *self == SubstrateType::Composite(*es),
                        i <= es@.len(),
                        v@ == seq!['['] + json_type_list(es@.subrange(0, i as int)),
                    decreases es@.len() - i,
                {
                    if i > 0 {
                        v.push(',');
                    }
                    proof {
                        broadcast use
                            vstd::std_specs::vec::axiom_vec_decreases_to_view,
                            vstd::seq::axiom_seq_index_decreases;

                        assert(decreases_to!(*self => self->Composite_0));
                        assert(decreases_to!(self->Composite_0 => self->Composite_0@));
                        assert(self->Composite_0@ == es@);
                        assert(decreases_to!(es@ => es@[i as int]));
                    }
                    let mut e = es[i].json_chars();
                    v.append(&mut e);
                    proof {
                        lemma_json_type_list_snoc(es@.subrange(0, i as int), es@[i as int]);
                        assert(es@.subrange(0, i as int).push(es@[i as int]) =~= es@.subrange(
                            0,
                            i as int + 1,
                        ));
                        assert(v@ =~= seq!['['] + json_type_list(es@.subrange(0, i as int + 1)));
                    }
                    i = i + 1;
                }
                v.push(']');
                proof {
                    assert(es@.subrange(0, es@.len() as int) =~= es@);
                    assert(v@ =~= json_of_type(*self));
                }
                v
            },
        }
    }

    /// The JSON text of this value.
    pub fn to_json(&self) -> (r: String)
        ensures
            r@ == json_of_type(*self),
    {
        let v = self.json_chars();
        string_from_chars(&v)
    }
}

proof fn lemma_json_escaped_snoc(s: Seq<char>)
    requires
        s.len() > 0,
    ensures
        json_escaped(s) == json_escaped(s.drop_last()) + (if s.last() == '"' || s.last() == '\\' {
            seq!['\\', s.last()]
        } else {
            seq![s.last()]
        }),
    decreases s.len(),
{
    if s.len() == 1 {
        assert(s.drop_first() =~= Seq::<char>::empty());
        assert(s.drop_last() =~= Seq::<char>::empty());
        assert(json_escaped(s.drop_last()) == Seq::<char>::empty());
    } else {
        lemma_json_escaped_snoc(s.drop_first());
        assert(s.drop_first().drop_last() =~= s.drop_last().drop_first());
        assert(s.drop_first().last() == s.last());
        assert(s.drop_last()[0] == s[0]);
        assert(s.drop_last().len() > 0);
        assert(json_escaped(s) =~= json_escaped(s.drop_last()) + (if s.last() == '"' || s.last()
            == '\\' {
            seq!['\\', s.last()]
        } else {
            seq![s.last()]
        }));
    }
}

/// One named argument of a decoded call.
#[derive(Debug, PartialEq, Eq)]
pub struct ExtrinsicArgument {
    pub name: String,
    pub arg: SubstrateType,
}

/// A decoded call: the module and call names and the named argument
/// values, in declaration order.
#[derive(Debug, PartialEq, Eq)]
pub struct GenericCall {
    pub name: String,
    pub module: String,
    pub args: Vec<ExtrinsicArgument>,
}

/// A decoded extrinsic: an optional signature and a call.
#[derive(Debug, PartialEq, Eq)]
pub struct GenericExtrinsic {
    pub signature: Option<SubstrateType>,
    pub call: GenericCall,
}

/// The JSON text of one named argument: `{"name":...,"arg":...}`.
pub open spec fn json_of_argument(a: ExtrinsicArgument) -> Seq<char> {
    seq!['{', '"', 'n', 'a', 'm', 'e', '"', ':', '"'] + json_escaped(a.name@) + seq![
        '"',
        ',',
        '"',
        'a',
        'r',
        'g',
        '"',
        ':',
    ] + json_of_type(a.arg) + seq!['}']
}

/// The JSON texts of the arguments, joined by commas.
pub open spec fn json_argument_list(es: Seq<ExtrinsicArgument>) -> Seq<char>
    decreases es.len(),
{
    if es.len() == 0 {
        Seq::empty()
    } else if es.len() == 1 {
        json_of_argument(es[0])
    } else {
        json_of_argument(es[0]) + seq![','] + json_argument_list(es.drop_first())
    }
}

/// The JSON text of a call: `{"name":...,"module":...,"args":[...]}`.
pub open spec fn json_of_call(c: GenericCall) -> Seq<char> {
    seq!['{', '"', 'n', 'a', 'm', 'e', '"', ':', '"'] + json_escaped(c.name@) + seq![
        '"',
        ',',
        '"',
        'm',
        'o',
        'd',
        'u',
        'l',
        'e',
        '"',
        ':',
        '"',
    ] + json_escaped(c.module@) + seq!['"', ',', '"', 'a', 'r', 'g', 's', '"', ':', '[']
        + json_argument_list(c.args@) + seq![']', '}']
}

/// The JSON text of an extrinsic:
/// `{"signature":...,"call":...}`, with `null` for a missing signature.
pub open spec fn json_of_extrinsic(e: GenericExtrinsic) -> Seq<char> {
    seq!['{', '"', 's', 'i', 'g', 'n', 'a', 't', 'u', 'r', 'e', '"', ':'] + (match e.signature {
        Some(s) => json_of_type(s),
        None => seq!['n', 'u', 'l', 'l'],
    }) + seq![',', '"', 'c', 'a', 'l', 'l', '"', ':'] + json_of_call(e.call) + seq!['}']
}

pub proof fn lemma_json_argument_list_snoc(xs: Seq<ExtrinsicArgument>, y: ExtrinsicArgument)
    ensures
        xs.len() == 0 ==> json_argument_list(xs.push(y)) == json_of_argument(y),
        xs.len() > 0 ==> json_argument_list(xs.push(y)) == json_argument_list(xs) + seq![',']
            + json_of_argument(y),
    decreases xs.len(),
{
    let w = xs.push(y);
    if xs.len() == 0 {
        assert(w.len() == 1);
        assert(w[0] == y);
    } else if xs.len() == 1 {
        assert(w[0] == xs[0]);
        assert(w.drop_first() =~= seq![y]);
        assert(json_argument_list(seq![y]) == json_of_argument(seq![y][0]));
        assert(seq![y][0] == y);
    } else {
        assert(w[0] == xs[0]);
        assert(w.drop_first() =~= xs.drop_first().push(y));
        lemma_json_argument_list_snoc(xs.drop_first(), y);
        assert(json_argument_list(w) =~= json_argument_list(xs) + seq![','] + json_of_argument(
            y,
        ));
    }
}

impl ExtrinsicArgument {
    fn json_chars(&self) -> (v: Vec<char>)
        ensures
            v@ == json_of_argument(*self),
    {
        let mut v: Vec<char> = Vec::new();
        push_str_chars(&mut v, "{\"name\":\"");
        let mut es = json_escape_chars(self.name.as_str());
        v.append(&mut es);
        push_str_chars(&mut v, "\",\"arg\":");
        let mut a = self.arg.json_chars();
        v.append(&mut a);
        push_str_chars(&mut v, "}");
        proof {
            reveal_strlit("{\"name\":\"");
            reveal_strlit("\",\"arg\":");
            reveal_strlit("}");
            assert(v@ =~= json_of_argument(*self));
        }
        v
    }
}

/// The characters of `s` with JSON escaping applied.
fn json_escape_chars(s: &str) -> (v: Vec<char>)
    ensures
        v@ == json_escaped(s@),
{
    let cs = chars_of(s);
    let mut v: Vec<char> = Vec::new();
    let mut i: usize = 0;
    while i < cs.len()
        invariant
            cs@ == s@,
            i <= cs@.len(),
            v@ == json_escaped(s@.subrange(0, i as int)),
        decreases cs@.len() - i,
    {
        let c = cs[i];
        if c == '"' || c == '\\' {
            v.push('\\');
        }
        v.push(c);
        proof {
            lemma_json_escaped_snoc(s@.subrange(0, i as int + 1));
            assert(s@.subrange(0, i as int + 1).drop_last() =~= s@.subrange(0, i as int));
            assert(v@ =~= json_escaped(s@.subrange(0, i as int + 1)));
        }
        i = i + 1;
    }
    proof {
        assert(s@.subrange(0, s@.len() as int) =~= s@);
    }
    v
}

impl GenericCall {
    fn json_chars(&self) -> (v: Vec<char>)
        ensures
            v@ == json_of_call(*self),
    {
        let mut v: Vec<char> = Vec::new();
        push_str_chars(&mut v, "{\"name\":\"");
        let mut n = json_escape_chars(self.name.as_str());
        v.append(&mut n);
        push_str_chars(&mut v, "\",\"module\":\"");
        let mut m = json_escape_chars(self.module.as_str());
        v.append(&mut m);
        push_str_chars(&mut v, "\",\"args\":[");
        proof {
            reveal_strlit("{\"name\":\"");
            reveal_strlit("\",\"module\":\"");
            reveal_strlit("\",\"args\":[");
            assert(json_argument_list(self.args@.subrange(0, 0)) == Seq::<char>::empty());
            assert(v@ =~= seq!['{', '"', 'n', 'a', 'm', 'e', '"', ':', '"'] + json_escaped(
                self.name@,
            ) + seq!['"', ',', '"', 'm', 'o', 'd', 'u', 'l', 'e', '"', ':', '"'] + json_escaped(
                self.module@,
            ) + seq!['"', ',', '"', 'a', 'r', 'g', 's', '"', ':', '['] + json_argument_list(
                self.args@.subrange(0, 0),
            ));
        }
        let mut i: usize = 0;
        while i < self.args.len()
            invariant
                i <= self.args@.len(),
                v@ == seq!['{', '"', 'n', 'a', 'm', 'e', '"', ':', '"'] + json_escaped(self.name@)
                    + seq!['"', ',', '"', 'm', 'o', 'd', 'u', 'l', 'e', '"', ':', '"']
                    + json_escaped(self.module@) + seq![
                    '"',
                    ',',
                    '"',
                    'a',
                    'r',
                    'g',
                    's',
                    '"',
                    ':',
                    '[',
                ] + json_argument_list(self.args@.subrange(0, i as int)),
            decreases self.args@.len() - i,
        {
            if i > 0 {
                v.push(',');
            }
            let mut a = self.args[i].json_chars();
            v.append(&mut a);
            proof {
                lemma_json_argument_list_snoc(
                    self.args@.subrange(0, i as int),
                    self.args@[i as int],
                );
                assert(self.args@.subrange(0, i as int).push(self.args@[i as int])
                    =~= self.args@.subrange(0, i as int + 1));
            }
            i = i + 1;
        }
        push_str_chars(&mut v, "]}");
        proof {
            reveal_strlit("{\"name\":\"");
            reveal_strlit("\",\"module\":\"");
            reveal_strlit("\",\"args\":[");
            reveal_strlit("]}");
            assert(self.args@.subrange(0, self.args@.len() as int) =~= self.args@);
            assert(v@ =~= json_of_call(*self));
        }
        v
    }
}

impl GenericExtrinsic {
    /// Creates a generic extrinsic from a signature, the named argument
    /// values, and the call and module names.
    pub fn new(
        sig: Option<SubstrateType>,
        call: Vec<(String, SubstrateType)>,
        name: String,
        module: String,
    ) -> (r: GenericExtrinsic)
        ensures
            r.signature == sig,
            r.call.name == name,
            r.call.module == module,
            r.call.args@.len() == call@.len(),
            forall|i: int|
                0 <= i < call@.len() ==> (#[trigger] r.call.args@[i]).name == call@[i].0
                    && r.call.args@[i].arg == call@[i].1,
    {
        let ghost orig = call@;
        let mut rest = call;
        let mut args: Vec<ExtrinsicArgument> = Vec::new();
        while rest.len() > 0
            invariant
                args@.len() + rest@.len() == orig.len(),
                rest@ =~= orig.subrange(args@.len() as int, orig.len() as int),
                forall|i: int|
                    0 <= i < args@.len() ==> (#[trigger] args@[i]).name == orig[i].0
                        && args@[i].arg == orig[i].1,
            decreases rest@.len(),
        {
            let (n, a) = rest.remove(0);
            args.push(ExtrinsicArgument { name: n, arg: a });
        }
        GenericExtrinsic { signature: sig, call: GenericCall { name, module, args } }
    }

    /// The decoded call.
    pub fn call(&self) -> (r: &GenericCall)
        ensures
            *r == self.call,
    {
        &self.call
    }

    /// The name of the module the call dispatches into.
    pub fn ext_module(&self) -> (r: &str)
        ensures
            r@ == self.call.module@,
    {
        self.call.module.as_str()
    }

    /// The name of the call.
    pub fn ext_name(&self) -> (r: &str)
        ensures
            r@ == self.call.name@,
    {
        self.call.name.as_str()
    }

    /// The JSON text of the extrinsic.
    pub fn to_json(&self) -> (r: String)
        ensures
            r@ == json_of_extrinsic(*self),
    {
        let mut v: Vec<char> = Vec::new();
        push_str_chars(&mut v, "{\"signature\":");
        match &self.signature {
            Some(s) => {
                let mut sj = s.json_chars();
                v.append(&mut sj);
            },
            None => {
                push_str_chars(&mut v, "null");
            },
        }
        push_str_chars(&mut v, ",\"call\":");
        let mut c = self.call.json_chars();
        v.append(&mut c);
        push_str_chars(&mut v, "}");
        proof {
            reveal_strlit("{\"signature\":");
            reveal_strlit("null");
            reveal_strlit(",\"call\":");
            reveal_strlit("}");
            assert(v@ =~= json_of_extrinsic(*self));
        }
        string_from_chars(&v)
    }
}


/// The human-readable text of a decoded value: numbers and booleans
/// bare, strings bare, composites parenthesized and comma-separated.
pub open spec fn display_of_type(t: SubstrateType) -> Seq<char>
    decreases t,
    via display_of_type_dec
{
    match t {
        SubstrateType::Bool(b) => if b {
            "true"@
        } else {
            "false"@
        },
        SubstrateType::U8(x) => dec_seq(x as nat),
        SubstrateType::U16(x) => dec_seq(x as nat),
        SubstrateType::U32(x) => dec_seq(x as nat),
        SubstrateType::U64(x) => dec_seq(x as nat),
        SubstrateType::U128(x) => dec_seq(x as nat),
        SubstrateType::Str(v) => v@,
        SubstrateType::Composite(es) => "("@ + display_type_list(es@) + ")"@,
    }
}

/// The texts of the values, joined by `, `.
pub open spec fn display_type_list(es: Seq<SubstrateType>) -> Seq<char>
    decreases es,
    via display_type_list_dec
{
    if es.len() == 0 {
        Seq::empty()
    } else if es.len() == 1 {
        display_of_type(es[0])
    } else {
        display_of_type(es[0]) + ", "@ + display_type_list(es.drop_first())
    }
}

#[via_fn]
proof fn display_of_type_dec(t: SubstrateType) {
    broadcast use vstd::std_specs::vec::axiom_vec_decreases_to_view;

    match t {
        SubstrateType::Composite(es) => {
            assert(decreases_to!(t => es));
            assert(decreases_to!(es => es@));
        },
        _ => {},
    }
}

#[via_fn]
proof fn display_type_list_dec(es: Seq<SubstrateType>) {
    broadcast use vstd::seq::axiom_seq_index_decreases, vstd::seq::axiom_seq_subrange_decreases;

    if es.len() > 0 {
        assert(decreases_to!(es => es[0]));
        if es.len() > 1 {
            assert(es.drop_first() == es.subrange(1, es.len() as int));
            assert(decreases_to!(es => es.drop_first()));
        }
    }
}

pub proof fn lemma_display_type_list_snoc(xs: Seq<SubstrateType>, y: SubstrateType)
    ensures
        xs.len() == 0 ==> display_type_list(xs.push(y)) == display_of_type(y),
        xs.len() > 0 ==> display_type_list(xs.push(y)) == display_type_list(xs) + ", "@
            + display_of_type(y),
    decreases xs.len(),
{
    let w = xs.push(y);
    if xs.len() == 0 {
        assert(w.len() == 1);
        assert(w[0] == y);
    } else if xs.len() == 1 {
        assert(w[0] == xs[0]);
        assert(w.drop_first() =~= seq![y]);
        assert(display_type_list(seq![y]) == display_of_type(seq![y][0]));
        assert(seq![y][0] == y);
    } else {
        assert(w[0] == xs[0]);
        assert(w.drop_first() =~= xs.drop_first().push(y));
        lemma_display_type_list_snoc(xs.drop_first(), y);
        assert(display_type_list(w) =~= display_type_list(xs) + ", "@ + display_of_type(y));
    }
}

/// The human-readable text of one named argument.
pub open spec fn display_of_argument(a: ExtrinsicArgument) -> Seq<char> {
    " arg: "@ + a.name@ + ", Ty: "@ + display_of_type(a.arg) + " "@
}

/// The arguments' texts, concatenated.
pub open spec fn display_argument_list(es: Seq<ExtrinsicArgument>) -> Seq<char>
    decreases es.len(),
{
    if es.len() == 0 {
        Seq::empty()
    } else {
        display_of_argument(es[0]) + display_argument_list(es.drop_first())
    }
}

pub proof fn lemma_display_argument_list_snoc(xs: Seq<ExtrinsicArgument>, y: ExtrinsicArgument)
    ensures
        display_argument_list(xs.push(y)) =~= display_argument_list(xs) + display_of_argument(y),
    decreases xs.len(),
{
    let w = xs.push(y);
    if xs.len() == 0 {
        assert(w[0] == y);
        assert(w.drop_first() =~= Seq::<ExtrinsicArgument>::empty());
        assert(display_argument_list(w) == display_of_argument(w[0]) + display_argument_list(
            w.drop_first(),
        ));
        assert(display_argument_list(w.drop_first()) == Seq::<char>::empty());
        assert(display_argument_list(xs) == Seq::<char>::empty());
    } else {
        assert(w[0] == xs[0]);
        assert(w.drop_first() =~= xs.drop_first().push(y));
        lemma_display_argument_list_snoc(xs.drop_first(), y);
        assert(display_argument_list(w) == display_of_argument(w[0]) + display_argument_list(
            w.drop_first(),
        ));
        assert(display_argument_list(xs) == display_of_argument(xs[0]) + display_argument_list(
            xs.drop_first(),
        ));
    }
}

/// The human-readable text of a call: its name, a separator, then each
/// argument's text.
pub open spec fn display_of_call(c: GenericCall) -> Seq<char> {
    c.name@ + ":   "@ + display_argument_list(c.args@)
}

/// The human-readable text of an extrinsic: the signature's text (or
/// `None`), then `CALL` on its own line, then the call's text.
pub open spec fn display_of_extrinsic(e: GenericExtrinsic) -> Seq<char> {
    (match e.signature {
        Some(v) => display_of_type(v),
        None => "None"@,
    }) + "\n"@ + "CALL"@ + "\n"@ + display_of_call(e.call)
}

impl SubstrateType {
    fn display_chars(&self) -> (v: Vec<char>)
        ensures
            v@ == display_of_type(*self),
        decreases *self,
    {
        match self {
            SubstrateType::Bool(b) => {
                let mut v: Vec<char> = Vec::new();
                if *b {
                    push_str_chars(&mut v, "true");
                } else {
                    push_str_chars(&mut v, "false");
                }
                proof {
                    assert(v@ =~= display_of_type(*self));
                }
                v
            },
            SubstrateType::U8(x) => dec_chars(*x as u128),
            SubstrateType::U16(x) => dec_chars(*x as u128),
            SubstrateType::U32(x) => dec_chars(*x as u128),
            SubstrateType::U64(x) => dec_chars(*x as u128),
            SubstrateType::U128(x) => dec_chars(*x),
            SubstrateType::Str(sv) => chars_of(sv.as_str()),
            SubstrateType::Composite(es) => {
                let mut v: Vec<char> = Vec::new();
                push_str_chars(&mut v, "(");
                let mut i: usize = 0;
                while i < es.len()
                    invariant
                        *self == SubstrateType::Composite(*es),
                        i <= es@.len(),
                        v@ == "("@ + display_type_list(es@.subrange(0, i as int)),
                    decreases es@.len() - i,
                {
                    if i > 0 {
                        push_str_chars(&mut v, ", ");
                    }
                    proof {
                        broadcast use
                            vstd::std_specs::vec::axiom_vec_decreases_to_view,
                            vstd::seq::axiom_seq_index_decreases;

                        assert(decreases_to!(*self => self->Composite_0));
                        assert(decreases_to!(self->Composite_0 => self->Composite_0@));
                        assert(self->Composite_0@ == es@);
                        assert(decreases_to!(es@ => es@[i as int]));
                    }
                    let mut e = es[i].display_chars();
                    v.append(&mut e);
                    proof {
                        lemma_display_type_list_snoc(es@.subrange(0, i as int), es@[i as int]);
                        assert(es@.subrange(0, i as int).push(es@[i as int]) =~= es@.subrange(
                            0,
                            i as int + 1,
                        ));
                        assert(v@ =~= "("@ + display_type_list(es@.subrange(0, i as int + 1)));
                    }
                    i = i + 1;
                }
                push_str_chars(&mut v, ")");
                proof {
                    assert(es@.subrange(0, es@.len() as int) =~= es@);
                    assert(v@ =~= display_of_type(*self));
                }
                v
            },
        }
    }

    /// The human-readable text of this value.
    pub fn display_string(&self) -> (r: String)
        ensures
            r@ == display_of_type(*self),
    {
        let v = self.display_chars();
        string_from_chars(&v)
    }
}

impl ExtrinsicArgument {
    /// The human-readable text of this argument.
    pub fn display_string(&self) -> (r: String)
        ensures
            r@ == display_of_argument(*self),
    {
        let mut v: Vec<char> = Vec::new();
        push_str_chars(&mut v, " arg: ");
        push_str_chars(&mut v, self.name.as_str());
        push_str_chars(&mut v, ", Ty: ");
        let mut a = self.arg.display_chars();
        v.append(&mut a);
        push_str_chars(&mut v, " ");
        proof {
            assert(v@ =~= display_of_argument(*self));
        }
        string_from_chars(&v)
    }
}

impl GenericCall {
    /// The human-readable text of this call.
    pub fn display_string(&self) -> (r: String)
        ensures
            r@ == display_of_call(*self),
    {
        let mut v: Vec<char> = Vec::new();
        push_str_chars(&mut v, self.name.as_str());
        push_str_chars(&mut v, ":   ");
        let mut i: usize = 0;
        while i < self.args.len()
            invariant
                i <= self.args@.len(),
                v@ == self.name@ + ":   "@ + display_argument_list(self.args@.subrange(0, i as int)),
            decreases self.args@.len() - i,
        {
            push_str_chars(&mut v, " arg: ");
            push_str_chars(&mut v, self.args[i].name.as_str());
            push_str_chars(&mut v, ", Ty: ");
            let mut a = self.args[i].arg.display_chars();
            v.append(&mut a);
            push_str_chars(&mut v, " ");
            proof {
                lemma_display_argument_list_snoc(
                    self.args@.subrange(0, i as int),
                    self.args@[i as int],
                );
                assert(self.args@.subrange(0, i as int).push(self.args@[i as int])
                    =~= self.args@.subrange(0, i as int + 1));
                assert(v@ =~= self.name@ + ":   "@ + display_argument_list(
                    self.args@.subrange(0, i as int + 1),
                ));
            }
            i = i + 1;
        }
        proof {
            assert(self.args@.subrange(0, self.args@.len() as int) =~= self.args@);
            assert(v@ =~= display_of_call(*self));
        }
        string_from_chars(&v)
    }
}

impl GenericExtrinsic {
    /// The human-readable text of this extrinsic.
    pub fn display_string(&self) -> (r: String)
        ensures
            r@ == display_of_extrinsic(*self),
    {
        let mut v: Vec<char> = Vec::new();
        match &self.signature {
            Some(sig) => {
                let mut sv = sig.display_chars();
                v.append(&mut sv);
            },
            None => {
                push_str_chars(&mut v, "None");
            },
        }
        push_str_chars(&mut v, "\n");
        push_str_chars(&mut v, "CALL");
        push_str_chars(&mut v, "\n");
        let call_text = self.call.display_string();
        push_str_chars(&mut v, call_text.as_str());
        proof {
            assert(v@ =~= display_of_extrinsic(*self));
        }
        string_from_chars(&v)
    }
}

} // verus!
