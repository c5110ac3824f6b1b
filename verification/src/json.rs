use vstd::prelude::*;

use crate::model::{
    lemma_entries_model, lemma_named_batches_model, lemma_pairs_model, lemma_unnamed_batches_model,
    lemma_values_model, named_batches_model, named_values_model, unnamed_batches_model,
    value_model, values_model, FieldsModel, Model,
};
use crate::named_values::NamedValues;
use crate::render::{digit_char, int_str};
use crate::tuplable::TupleDef;
use crate::valuable::Valuable;
use crate::value::{FieldValues, ListValue, Value};

verus! {

/// An error met while serializing a value as JSON: a value kind stood where
/// JSON does not allow it.
#[derive(Debug)]
pub struct JsonError {
    msg: String,
}

impl JsonError {
    /// The error's message.
    pub closed spec fn spec_message(&self) -> Seq<char> {
        self.msg@
    }

    /// Returns the error's message.
    pub fn message(&self) -> (r: &str)
        ensures
            r@ == self.spec_message(),
    {
        self.msg.as_str()
    }
}

/// The character for one hexadecimal digit.
pub open spec fn hex_char(d: int) -> char {
    if d < 10 {
        digit_char(d)
    } else if d == 10 {
        'a'
    } else if d == 11 {
        'b'
    } else if d == 12 {
        'c'
    } else if d == 13 {
        'd'
    } else if d == 14 {
        'e'
    } else {
        'f'
    }
}

/// How one character is escaped inside a JSON string: quote, backslash, the
/// common control characters, optionally the solidus, and a `\u00..` escape
/// for the remaining control characters; every other character stands for
/// itself.
pub open spec fn json_esc_char(c: char, sol: bool) -> Seq<char> {
    if c == '"' {
        seq!['\\', '"']
    } else if c == '\\' {
        seq!['\\', '\\']
    } else if c == '/' {
        if sol {
            seq!['\\', '/']
        } else {
            seq!['/']
        }
    } else if c == '\n' {
        seq!['\\', 'n']
    } else if c == '\r' {
        seq!['\\', 'r']
    } else if c == '\t' {
        seq!['\\', 't']
    } else if (c as u32) == 8 {
        seq!['\\', 'b']
    } else if (c as u32) == 12 {
        seq!['\\', 'f']
    } else if (c as u32) < 32 {
        seq!['\\', 'u', '0', '0', hex_char((c as u32) as int / 16), hex_char((c as u32) as int % 16)]
    } else {
        seq![c]
    }
}

/// A character sequence escaped for a JSON string.
pub open spec fn json_esc_seq(s: Seq<char>, sol: bool) -> Seq<char>
    decreases s.len(),
{
    if s.len() == 0 {
        Seq::empty()
    } else {
        json_esc_char(s[0], sol) + json_esc_seq(s.drop_first(), sol)
    }
}

/// A quoted JSON string.
pub open spec fn json_string(s: Seq<char>, sol: bool) -> Seq<char> {
    seq!['"'] + json_esc_seq(s, sol) + seq!['"']
}

/// The newline that pretty printing inserts; compact output inserts none.
pub open spec fn nl(pretty: bool) -> Seq<char> {
    if pretty {
        seq!['\n']
    } else {
        Seq::empty()
    }
}

/// The space after a key's colon in pretty output.
pub open spec fn sp(pretty: bool) -> Seq<char> {
    if pretty {
        seq![' ']
    } else {
        Seq::empty()
    }
}

/// A run of spaces.
pub open spec fn spaces(k: nat) -> Seq<char>
    decreases k,
{
    if k == 0 {
        Seq::empty()
    } else {
        seq![' '] + spaces((k - 1) as nat)
    }
}

/// The indent at nesting depth `ind`; compact output indents nothing.
pub open spec fn ind_s(pretty: bool, ind: nat) -> Seq<char> {
    if pretty {
        spaces(2 * ind)
    } else {
        Seq::empty()
    }
}

/// The JSON rendering of a key: strings and characters as JSON strings,
/// numbers quoted; everything else is an error naming the kind that cannot
/// be a key.
pub open spec fn json_key(m: Model, sol: bool) -> Result<Seq<char>, Seq<char>> {
    match m {
        Model::Str(s) => Ok(json_string(s, sol)),
        Model::Char(c) => Ok(json_string(seq![c], sol)),
        Model::I8(n) => Ok(seq!['"'] + int_str(n) + seq!['"']),
        Model::I16(n) => Ok(seq!['"'] + int_str(n) + seq!['"']),
        Model::I32(n) => Ok(seq!['"'] + int_str(n) + seq!['"']),
        Model::I64(n) => Ok(seq!['"'] + int_str(n) + seq!['"']),
        Model::I128(n) => Ok(seq!['"'] + int_str(n) + seq!['"']),
        Model::Isize(n) => Ok(seq!['"'] + int_str(n) + seq!['"']),
        Model::U8(n) => Ok(seq!['"'] + int_str(n) + seq!['"']),
        Model::U16(n) => Ok(seq!['"'] + int_str(n) + seq!['"']),
        Model::U32(n) => Ok(seq!['"'] + int_str(n) + seq!['"']),
        Model::U64(n) => Ok(seq!['"'] + int_str(n) + seq!['"']),
        Model::U128(n) => Ok(seq!['"'] + int_str(n) + seq!['"']),
        Model::Usize(n) => Ok(seq!['"'] + int_str(n) + seq!['"']),
        Model::Bool(_) => Err("bool cannot be a key"@),
        Model::Unit => Err("unit cannot be a key"@),
        Model::List(_) => Err("list cannot be a key"@),
        Model::Mapping(_) => Err("map cannot be a key"@),
        Model::Struct(_) => Err("struct cannot be a key"@),
        Model::Enum(_) => Err("enum cannot be a key"@),
        Model::Tuple(_) => Err("tuple cannot be a key"@),
        Model::Error(_) => Err("unsupported value kind"@),
        Model::Rendered(_) => Err("unsupported value kind"@),
    }
}

/// The JSON rendering of a value. Scalars become JSON literals, lists and
/// unnamed field lists become arrays, maps and named field lists become
/// objects, an enum value becomes an object with one key naming the
/// variant, a unit tuple and the unit value become `null`. `sol` asks for
/// escaped solidus characters; `pretty` asks for indented output at nesting
/// depth `ind`.
pub open spec fn json_model(m: Model, sol: bool, pretty: bool, ind: nat) -> Result<
    Seq<char>,
    Seq<char>,
>
    decreases m,
{
    match m {
        Model::Bool(b) => Ok(
            if b {
                seq!['t', 'r', 'u', 'e']
            } else {
                seq!['f', 'a', 'l', 's', 'e']
            },
        ),
        Model::Char(c) => Ok(json_string(seq![c], sol)),
        Model::I8(n) => Ok(int_str(n)),
        Model::I16(n) => Ok(int_str(n)),
        Model::I32(n) => Ok(int_str(n)),
        Model::I64(n) => Ok(int_str(n)),
        Model::I128(n) => Ok(int_str(n)),
        Model::Isize(n) => Ok(int_str(n)),
        Model::Str(s) => Ok(json_string(s, sol)),
        Model::U8(n) => Ok(int_str(n)),
        Model::U16(n) => Ok(int_str(n)),
        Model::U32(n) => Ok(int_str(n)),
        Model::U64(n) => Ok(int_str(n)),
        Model::U128(n) => Ok(int_str(n)),
        Model::Usize(n) => Ok(int_str(n)),
        Model::Error(_) => Err("unsupported value kind"@),
        Model::Rendered(_) => Err("unsupported value kind"@),
        Model::Unit => Ok(seq!['n', 'u', 'l', 'l']),
        Model::List(ms) => json_array_body(json_items_from(ms, Ok(None), sol, pretty, ind + 1), pretty, ind),
        Model::Mapping(es) => json_object_body(json_entries_from(es, Ok(None), sol, pretty, ind + 1), pretty, ind),
        Model::Struct(sm) => {
            match sm.fields {
                FieldsModel::Named(bs) => json_object_body(
                    json_pair_batches_from(bs, Ok(None), sol, pretty, ind + 1),
                    pretty,
                    ind,
                ),
                FieldsModel::Unnamed(bs) => json_array_body(
                    json_item_batches_from(bs, Ok(None), sol, pretty, ind + 1),
                    pretty,
                    ind,
                ),
            }
        },
        Model::Enum(em) => {
            match (match em.fields {
                FieldsModel::Named(bs) => json_object_body(
                    json_pair_batches_from(bs, Ok(None), sol, pretty, ind + 2),
                    pretty,
                    (ind + 1) as nat,
                ),
                FieldsModel::Unnamed(bs) => json_array_body(
                    json_item_batches_from(bs, Ok(None), sol, pretty, ind + 2),
                    pretty,
                    (ind + 1) as nat,
                ),
            }) {
                Ok(body) => Ok(
                    seq!['{'] + nl(pretty) + ind_s(pretty, ind + 1) + json_string(em.variant, sol)
                        + seq![':'] + sp(pretty) + body + nl(pretty) + ind_s(pretty, ind)
                        + seq!['}'],
                ),
                Err(e) => Err(e),
            }
        },
        Model::Tuple(tm) => {
            if tm.def == (TupleDef::Static { fields: 0usize }) {
                Ok(seq!['n', 'u', 'l', 'l'])
            } else {
                json_array_body(
                    json_item_batches_from(tm.batches, Ok(None), sol, pretty, ind + 1),
                    pretty,
                    ind,
                )
            }
        },
    }
}

/// Wraps rendered array items in brackets: `[]` when empty, and otherwise
/// brackets with each item on its own indented line in pretty output.
pub open spec fn json_array_body(
    items: Result<Option<Seq<char>>, Seq<char>>,
    pretty: bool,
    ind: nat,
) -> Result<Seq<char>, Seq<char>> {
    match items {
        Ok(None) => Ok(seq!['[', ']']),
        Ok(Some(body)) => Ok(seq!['['] + body + nl(pretty) + ind_s(pretty, ind) + seq![']']),
        Err(e) => Err(e),
    }
}

/// Wraps rendered object members in braces: `{}` when empty, and otherwise
/// braces with each member on its own indented line in pretty output.
pub open spec fn json_object_body(
    items: Result<Option<Seq<char>>, Seq<char>>,
    pretty: bool,
    ind: nat,
) -> Result<Seq<char>, Seq<char>> {
    match items {
        Ok(None) => Ok(seq!['{', '}']),
        Ok(Some(body)) => Ok(seq!['{'] + body + nl(pretty) + ind_s(pretty, ind) + seq!['}']),
        Err(e) => Err(e),
    }
}

/// Joins one more rendered element onto an array or object body: elements
/// are separated by commas, and each starts on its own indented line in
/// pretty output.
pub open spec fn json_join(
    acc: Option<Seq<char>>,
    piece: Seq<char>,
    pretty: bool,
    ind: nat,
) -> Option<Seq<char>> {
    match acc {
        None => Some(nl(pretty) + ind_s(pretty, ind) + piece),
        Some(t) => Some(t + seq![','] + nl(pretty) + ind_s(pretty, ind) + piece),
    }
}


/// Folds rendered items onto an accumulated body, stopping at the first
/// error.
pub open spec fn json_items_from(
    ms: Seq<Model>,
    acc: Result<Option<Seq<char>>, Seq<char>>,
    sol: bool,
    pretty: bool,
    ind: nat,
) -> Result<Option<Seq<char>>, Seq<char>>
    decreases ms,
{
    match acc {
        Err(e) => Err(e),
        Ok(a) => {
            if ms.len() == 0 {
                Ok(a)
            } else {
                match json_model(ms[0], sol, pretty, ind) {
                    Ok(piece) => json_items_from(
                        ms.drop_first(),
                        Ok(json_join(a, piece, pretty, ind)),
                        sol,
                        pretty,
                        ind,
                    ),
                    Err(e) => Err(e),
                }
            }
        },
    }
}


/// Folds a run of unnamed batches onto an accumulated body, stopping at the
/// first error.
pub open spec fn json_item_batches_from(
    bs: Seq<Seq<Model>>,
    acc: Result<Option<Seq<char>>, Seq<char>>,
    sol: bool,
    pretty: bool,
    ind: nat,
) -> Result<Option<Seq<char>>, Seq<char>>
    decreases bs,
{
    if bs.len() == 0 {
        acc
    } else {
        json_item_batches_from(
            bs.drop_first(),
            json_items_from(bs[0], acc, sol, pretty, ind),
            sol,
            pretty,
            ind,
        )
    }
}

/// The rendered members of an object built from named pairs.
pub open spec fn json_pairs_from(
    ps: Seq<(Seq<char>, Model)>,
    acc: Result<Option<Seq<char>>, Seq<char>>,
    sol: bool,
    pretty: bool,
    ind: nat,
) -> Result<Option<Seq<char>>, Seq<char>>
    decreases ps,
{
    match acc {
        Err(e) => Err(e),
        Ok(a) => {
            if ps.len() == 0 {
                Ok(a)
            } else {
                match json_model(ps[0].1, sol, pretty, ind) {
                    Ok(piece) => json_pairs_from(
                        ps.drop_first(),
                        Ok(
                            json_join(
                                a,
                                json_string(ps[0].0, sol) + seq![':'] + sp(pretty) + piece,
                                pretty,
                                ind,
                            ),
                        ),
                        sol,
                        pretty,
                        ind,
                    ),
                    Err(e) => Err(e),
                }
            }
        },
    }
}


/// Folds a run of named batches onto an accumulated body, stopping at the
/// first error.
pub open spec fn json_pair_batches_from(
    bs: Seq<Seq<(Seq<char>, Model)>>,
    acc: Result<Option<Seq<char>>, Seq<char>>,
    sol: bool,
    pretty: bool,
    ind: nat,
) -> Result<Option<Seq<char>>, Seq<char>>
    decreases bs,
{
    if bs.len() == 0 {
        acc
    } else {
        json_pair_batches_from(
            bs.drop_first(),
            json_pairs_from(bs[0], acc, sol, pretty, ind),
            sol,
            pretty,
            ind,
        )
    }
}


/// Folds rendered map entries onto an accumulated body, stopping at the
/// first error.
pub open spec fn json_entries_from(
    es: Seq<(Model, Model)>,
    acc: Result<Option<Seq<char>>, Seq<char>>,
    sol: bool,
    pretty: bool,
    ind: nat,
) -> Result<Option<Seq<char>>, Seq<char>>
    decreases es,
{
    match acc {
        Err(e) => Err(e),
        Ok(a) => {
            if es.len() == 0 {
                Ok(a)
            } else {
                match json_key(es[0].0, sol) {
                    Ok(k) => match json_model(es[0].1, sol, pretty, ind) {
                        Ok(piece) => json_entries_from(
                            es.drop_first(),
                            Ok(json_join(a, k + seq![':'] + sp(pretty) + piece, pretty, ind)),
                            sol,
                            pretty,
                            ind,
                        ),
                        Err(e) => Err(e),
                    },
                    Err(e) => Err(e),
                }
            }
        },
    }
}

/// A run of spaces is all spaces.
pub proof fn lemma_spaces(k: nat)
    ensures
        spaces(k) =~= Seq::new(k, |i: int| ' '),
    decreases k,
{
    if k > 0 {
        lemma_spaces((k - 1) as nat);
    }
}

/// Escaping for JSON distributes over appending one character.
pub proof fn lemma_json_esc_push(s: Seq<char>, c: char, sol: bool)
    ensures
        json_esc_seq(s.push(c), sol) == json_esc_seq(s, sol) + json_esc_char(c, sol),
    decreases s.len(),
{
    reveal_with_fuel(json_esc_seq, 3);
    if s.len() == 0 {
        assert(s.push(c).drop_first() =~= Seq::<char>::empty());
        assert(json_esc_seq(s.push(c), sol) =~= json_esc_seq(s, sol) + json_esc_char(c, sol));
    } else {
        lemma_json_esc_push(s.drop_first(), c, sol);
        assert(s.push(c).drop_first() =~= s.drop_first().push(c));
        assert(json_esc_seq(s.push(c), sol) =~= json_esc_seq(s, sol) + json_esc_char(c, sol));
    }
}

/// Builds the indent one nesting level deeper.
fn deeper(indent: &Vec<char>, pretty: bool, Ghost(ind): Ghost<nat>) -> (r: Vec<char>)
    requires
        indent@ == ind_s(pretty, ind),
    ensures
        r@ == ind_s(pretty, ind + 1),
{
    if pretty {
        let mut r = vstd::slice::slice_to_vec(indent.as_slice());
        r.push(' ');
        r.push(' ');
        proof {
            lemma_spaces(2 * ind);
            lemma_spaces(2 * ind + 2);
            assert(r@ =~= ind_s(pretty, ind + 1));
        }
        r
    } else {
        let r: Vec<char> = Vec::new();
        proof {
            assert(r@ =~= ind_s(pretty, ind + 1));
        }
        r
    }
}

/// Writes the newline that pretty printing inserts.
fn write_nl(pretty: bool, out: &mut Vec<char>)
    ensures
        final(out)@ == old(out)@ + nl(pretty),
{
    if pretty {
        out.push('\n');
    }
    proof {
        assert(out@ =~= old(out)@ + nl(pretty));
    }
}

/// Writes the current indent.
#[verifier::loop_isolation(false)]
fn write_indent(indent: &Vec<char>, out: &mut Vec<char>)
    ensures
        final(out)@ == old(out)@ + indent@,
{
    let items = indent.as_slice();
    let mut i: usize = 0;
    while i < items.len()
        invariant
            items@ == indent@,
            i <= indent@.len(),
            out@ == old(out)@ + indent@.take(i as int),
        decreases indent@.len() - i,
    {
        let c = crate::strings::char_at(items, i);
        out.push(c);
        proof {
            assert(indent@.take(i as int + 1) =~= indent@.take(i as int).push(indent@[i as int]));
            assert(out@ =~= old(out)@ + indent@.take(i as int + 1));
        }
        i = i + 1;
    }
    proof {
        assert(indent@.take(indent@.len() as int) =~= indent@);
    }
}

/// Writes one character, escaped for a JSON string.
fn write_json_esc_char(c: char, sol: bool, out: &mut Vec<char>)
    ensures
        final(out)@ == old(out)@ + json_esc_char(c, sol),
{
    if c == '"' {
        out.push('\\');
        out.push('"');
    } else if c == '\\' {
        out.push('\\');
        out.push('\\');
    } else if c == '/' {
        if sol {
            out.push('\\');
            out.push('/');
        } else {
            out.push('/');
        }
    } else if c == '\n' {
        out.push('\\');
        out.push('n');
    } else if c == '\r' {
        out.push('\\');
        out.push('r');
    } else if c == '\t' {
        out.push('\\');
        out.push('t');
    } else {
        let code: u32 = c as u32;
        if code == 8 {
            out.push('\\');
            out.push('b');
        } else if code == 12 {
            out.push('\\');
            out.push('f');
        } else if code < 32 {
            out.push('\\');
            out.push('u');
            out.push('0');
            out.push('0');
            let hi = code / 16;
            let lo = code % 16;
            let hc = if hi == 0 {
                '0'
            } else {
                '1'
            };
            out.push(hc);
            let lc: char = if lo < 10 {
                crate::render::digit_to_char(lo as u128)
            } else if lo == 10 {
                'a'
            } else if lo == 11 {
                'b'
            } else if lo == 12 {
                'c'
            } else if lo == 13 {
                'd'
            } else if lo == 14 {
                'e'
            } else {
                'f'
            };
            out.push(lc);
        } else {
            out.push(c);
        }
    }
    proof {
        assert(out@ =~= old(out)@ + json_esc_char(c, sol));
    }
}

/// Writes a quoted JSON string.
#[verifier::loop_isolation(false)]
fn write_json_string(s: &str, sol: bool, out: &mut Vec<char>)
    ensures
        final(out)@ == old(out)@ + json_string(s@, sol),
{
    out.push('"');
    let chars = crate::strings::str_chars(s);
    let mut i: usize = 0;
    proof {
        assert(json_esc_seq(s@.take(0), sol) =~= Seq::<char>::empty());
    }
    while i < chars.len()
        invariant
            chars@ == s@,
            i <= s@.len(),
            out@ == old(out)@ + seq!['"'] + json_esc_seq(s@.take(i as int), sol),
        decreases s@.len() - i,
    {
        let c = crate::strings::char_at(chars.as_slice(), i);
        write_json_esc_char(c, sol, out);
        proof {
            assert(s@.take(i as int + 1) =~= s@.take(i as int).push(s@[i as int]));
            lemma_json_esc_push(s@.take(i as int), s@[i as int], sol);
            assert(out@ =~= old(out)@ + seq!['"'] + json_esc_seq(s@.take(i as int + 1), sol));
        }
        i = i + 1;
    }
    out.push('"');
    proof {
        assert(s@.take(s@.len() as int) =~= s@);
        assert(out@ =~= old(out)@ + json_string(s@, sol));
    }
}

/// Writes a single character as a quoted JSON string.
fn write_json_char(c: char, sol: bool, out: &mut Vec<char>)
    ensures
        final(out)@ == old(out)@ + json_string(seq![c], sol),
{
    out.push('"');
    write_json_esc_char(c, sol, out);
    out.push('"');
    proof {
        assert(seq![c].drop_first() =~= Seq::<char>::empty());
        assert(json_esc_seq(Seq::<char>::empty(), sol) =~= Seq::<char>::empty());
        assert(json_esc_seq(seq![c], sol) =~= json_esc_char(c, sol));
        assert(out@ =~= old(out)@ + json_string(seq![c], sol));
    }
}

/// Writes the JSON rendering of a scalar value.
fn json_scalar_into(v: &Value<'_>, sol: bool, out: &mut Vec<char>) -> (r: Result<(), JsonError>)
    requires
        crate::render::is_scalar(*v),
    ensures
        match json_model(value_model(*v), sol, false, 0) {
            Ok(s) => r is Ok && final(out)@ == old(out)@ + s,
            Err(e) => (r matches Err(je) && je.spec_message() == e) && final(out)@ == old(out)@,
        },
{
    match v {
        Value::Bool(b) => {
            if *b {
                out.push('t');
                out.push('r');
                out.push('u');
                out.push('e');
            } else {
                out.push('f');
                out.push('a');
                out.push('l');
                out.push('s');
                out.push('e');
            }
            proof {
                assert(out@ =~= old(out)@ + json_model(value_model(*v), sol, false, 0)->Ok_0);
            }
            Ok(())
        },
        Value::Char(c) => {
            let cc = crate::strings::char_copy(c);
            write_json_char(cc, sol, out);
            Ok(())
        },
        Value::I8(n) => {
            crate::render::write_signed(*n as i128, out);
            Ok(())
        },
        Value::I16(n) => {
            crate::render::write_signed(*n as i128, out);
            Ok(())
        },
        Value::I32(n) => {
            crate::render::write_signed(*n as i128, out);
            Ok(())
        },
        Value::I64(n) => {
            crate::render::write_signed(*n as i128, out);
            Ok(())
        },
        Value::I128(n) => {
            crate::render::write_signed(*n, out);
            Ok(())
        },
        Value::Isize(n) => {
            crate::render::write_signed(*n as i128, out);
            Ok(())
        },
        Value::String(s) => {
            write_json_string(s, sol, out);
            Ok(())
        },
        Value::U8(n) => {
            crate::render::write_unsigned(*n as u128, out);
            Ok(())
        },
        Value::U16(n) => {
            crate::render::write_unsigned(*n as u128, out);
            Ok(())
        },
        Value::U32(n) => {
            crate::render::write_unsigned(*n as u128, out);
            Ok(())
        },
        Value::U64(n) => {
            crate::render::write_unsigned(*n as u128, out);
            Ok(())
        },
        Value::U128(n) => {
            crate::render::write_unsigned(*n, out);
            Ok(())
        },
        Value::Usize(n) => {
            crate::render::write_unsigned(*n as u128, out);
            Ok(())
        },
        Value::Error(_) => {
            Err(JsonError { msg: unsupported_msg() })
        },
        Value::Renderable(_) => {
            Err(JsonError { msg: unsupported_msg() })
        },
        Value::Unit => {
            out.push('n');
            out.push('u');
            out.push('l');
            out.push('l');
            proof {
                assert(out@ =~= old(out)@ + json_model(value_model(*v), sol, false, 0)->Ok_0);
            }
            Ok(())
        },
        _ => {
            proof {
                assert(false);
            }
            Ok(())
        },
    }
}

/// The message for a value kind JSON cannot carry.
fn unsupported_msg() -> (r: String)
    ensures
        r@ == "unsupported value kind"@,
{
    let s: &str = "unsupported value kind";
    crate::strings::str_to_string(s)
}

/// Writes a map key: a scalar rendered as a JSON string, with numbers
/// quoted; any other kind is an error.
fn write_json_key(k: &Value<'_>, sol: bool, out: &mut Vec<char>) -> (r: Result<(), JsonError>)
    ensures
        match json_key(value_model(*k), sol) {
            Ok(s) => r is Ok && final(out)@ == old(out)@ + s,
            Err(e) => (r matches Err(je) && je.spec_message() == e) && final(out)@ == old(out)@,
        },
{
    match k {
        Value::String(s) => {
            write_json_string(s, sol, out);
            Ok(())
        },
        Value::Char(c) => {
            let cc = crate::strings::char_copy(c);
            write_json_char(cc, sol, out);
            Ok(())
        },
        Value::I8(n) => {
            out.push('"');
            crate::render::write_signed(*n as i128, out);
            out.push('"');
            proof {
                assert(out@ =~= old(out)@ + json_key(value_model(*k), sol)->Ok_0);
            }
            Ok(())
        },
        Value::I16(n) => {
            out.push('"');
            crate::render::write_signed(*n as i128, out);
            out.push('"');
            proof {
                assert(out@ =~= old(out)@ + json_key(value_model(*k), sol)->Ok_0);
            }
            Ok(())
        },
        Value::I32(n) => {
            out.push('"');
            crate::render::write_signed(*n as i128, out);
            out.push('"');
            proof {
                assert(out@ =~= old(out)@ + json_key(value_model(*k), sol)->Ok_0);
            }
            Ok(())
        },
        Value::I64(n) => {
            out.push('"');
            crate::render::write_signed(*n as i128, out);
            out.push('"');
            proof {
                assert(out@ =~= old(out)@ + json_key(value_model(*k), sol)->Ok_0);
            }
            Ok(())
        },
        Value::I128(n) => {
            out.push('"');
            crate::render::write_signed(*n, out);
            out.push('"');
            proof {
                assert(out@ =~= old(out)@ + json_key(value_model(*k), sol)->Ok_0);
            }
            Ok(())
        },
        Value::Isize(n) => {
            out.push('"');
            crate::render::write_signed(*n as i128, out);
            out.push('"');
            proof {
                assert(out@ =~= old(out)@ + json_key(value_model(*k), sol)->Ok_0);
            }
            Ok(())
        },
        Value::U8(n) => {
            out.push('"');
            crate::render::write_unsigned(*n as u128, out);
            out.push('"');
            proof {
                assert(out@ =~= old(out)@ + json_key(value_model(*k), sol)->Ok_0);
            }
            Ok(())
        },
        Value::U16(n) => {
            out.push('"');
            crate::render::write_unsigned(*n as u128, out);
            out.push('"');
            proof {
                assert(out@ =~= old(out)@ + json_key(value_model(*k), sol)->Ok_0);
            }
            Ok(())
        },
        Value::U32(n) => {
            out.push('"');
            crate::render::write_unsigned(*n as u128, out);
            out.push('"');
            proof {
                assert(out@ =~= old(out)@ + json_key(value_model(*k), sol)->Ok_0);
            }
            Ok(())
        },
        Value::U64(n) => {
            out.push('"');
            crate::render::write_unsigned(*n as u128, out);
            out.push('"');
            proof {
                assert(out@ =~= old(out)@ + json_key(value_model(*k), sol)->Ok_0);
            }
            Ok(())
        },
        Value::U128(n) => {
            out.push('"');
            crate::render::write_unsigned(*n, out);
            out.push('"');
            proof {
                assert(out@ =~= old(out)@ + json_key(value_model(*k), sol)->Ok_0);
            }
            Ok(())
        },
        Value::Usize(n) => {
            out.push('"');
            crate::render::write_unsigned(*n as u128, out);
            out.push('"');
            proof {
                assert(out@ =~= old(out)@ + json_key(value_model(*k), sol)->Ok_0);
            }
            Ok(())
        },
        Value::Bool(_) => Err(JsonError { msg: crate::strings::str_to_string("bool cannot be a key") }),
        Value::Unit => Err(JsonError { msg: crate::strings::str_to_string("unit cannot be a key") }),
        Value::Listable(_) => Err(
            JsonError { msg: crate::strings::str_to_string("list cannot be a key") },
        ),
        Value::Mappable(_) => Err(
            JsonError { msg: crate::strings::str_to_string("map cannot be a key") },
        ),
        Value::Structable(_) => Err(
            JsonError { msg: crate::strings::str_to_string("struct cannot be a key") },
        ),
        Value::Enumerable(_) => Err(
            JsonError { msg: crate::strings::str_to_string("enum cannot be a key") },
        ),
        Value::Tuplable(_) => Err(
            JsonError { msg: crate::strings::str_to_string("tuple cannot be a key") },
        ),
        Value::Error(_) => Err(JsonError { msg: unsupported_msg() }),
        Value::Renderable(_) => Err(JsonError { msg: unsupported_msg() }),
    }
}

/// Folding batches onto an error keeps the error.
pub proof fn lemma_item_batches_err(
    bs: Seq<Seq<Model>>,
    e: Seq<char>,
    sol: bool,
    pretty: bool,
    ind: nat,
)
    ensures
        json_item_batches_from(bs, Err(e), sol, pretty, ind) == Err::<Option<Seq<char>>, Seq<char>>(
            e,
        ),
    decreases bs.len(),
{
    if bs.len() > 0 {
        assert(json_items_from(bs[0], Err(e), sol, pretty, ind) == Err::<
            Option<Seq<char>>,
            Seq<char>,
        >(e));
        lemma_item_batches_err(bs.drop_first(), e, sol, pretty, ind);
    }
}

/// Folding named batches onto an error keeps the error.
pub proof fn lemma_pair_batches_err(
    bs: Seq<Seq<(Seq<char>, Model)>>,
    e: Seq<char>,
    sol: bool,
    pretty: bool,
    ind: nat,
)
    ensures
        json_pair_batches_from(bs, Err(e), sol, pretty, ind) == Err::<Option<Seq<char>>, Seq<char>>(
            e,
        ),
    decreases bs.len(),
{
    if bs.len() > 0 {
        assert(json_pairs_from(bs[0], Err(e), sol, pretty, ind) == Err::<
            Option<Seq<char>>,
            Seq<char>,
        >(e));
        lemma_pair_batches_err(bs.drop_first(), e, sol, pretty, ind);
    }
}

/// The text an accumulated body stands for: nothing, or its characters.
pub open spec fn acc_text(a: Option<Seq<char>>) -> Seq<char> {
    match a {
        None => Seq::empty(),
        Some(t) => t,
    }
}

/// Writes one element's join prefix: a comma when something has been
/// emitted already, then the pretty newline and indent.
fn write_join_prefix(started: bool, pretty: bool, indent: &Vec<char>, out: &mut Vec<char>)
    ensures
        final(out)@ == old(out)@ + (if started {
            seq![',']
        } else {
            Seq::<char>::empty()
        }) + nl(pretty) + indent@,
{
    if started {
        out.push(',');
    }
    write_nl(pretty, out);
    write_indent(indent, out);
    proof {
        assert(out@ =~= old(out)@ + (if started {
            seq![',']
        } else {
            Seq::<char>::empty()
        }) + nl(pretty) + indent@);
    }
}

/// Serializes one unnamed batch's values onto an accumulated array body.
#[verifier::loop_isolation(false)]
#[verifier::rlimit(100)]
#[verifier::spinoff_prover]
fn json_values_into(
    vs: &Vec<Value<'_>>,
    started: bool,
    Ghost(acc): Ghost<Option<Seq<char>>>,
    Ghost(base): Ghost<Seq<char>>,
    sol: bool,
    pretty: bool,
    indent: &Vec<char>,
    Ghost(ind): Ghost<nat>,
    out: &mut Vec<char>,
) -> (r: Result<bool, JsonError>)
    requires
        indent@ == ind_s(pretty, ind),
        started == (acc is Some),
        old(out)@ == base + acc_text(acc),
    ensures
        match json_items_from(values_model(vs@), Ok(acc), sol, pretty, ind) {
            Ok(acc2) => r matches Ok(st2) && st2 == (acc2 is Some) && final(out)@ == base
                + acc_text(acc2),
            Err(e) => r matches Err(je) && je.spec_message() == e,
        },
    decreases vs@,
{
    let ghost ms = values_model(vs@);
    proof {
        lemma_values_model(vs@);
        assert(ms.skip(0) =~= ms);
    }
    let items = vs.as_slice();
    let mut st: bool = started;
    let ghost mut cur: Option<Seq<char>> = acc;
    let mut i: usize = 0;
    while i < items.len()
        invariant
            items@ == vs@,
            i <= vs@.len(),
            ms == values_model(vs@),
            ms.len() == vs@.len(),
            st == (cur is Some),
            out@ == base + acc_text(cur),
            json_items_from(ms, Ok(acc), sol, pretty, ind) == json_items_from(
                ms.skip(i as int),
                Ok(cur),
                sol,
                pretty,
                ind,
            ),
        decreases vs@.len() - i,
    {
        write_join_prefix(st, pretty, indent, out);
        let item = vstd::slice::slice_index_get(items, i);
        proof {
            assert(decreases_to!(vs@ => vs@[i as int]));
            assert(ms.skip(i as int)[0] == ms[i as int]);
            assert(ms.skip(i as int).drop_first() =~= ms.skip(i as int + 1));
        }
        match json_value_into(item, sol, pretty, indent, Ghost(ind), out) {
            Ok(_) => {
                proof {
                    let piece = json_model(ms[i as int], sol, pretty, ind)->Ok_0;
                    cur = json_join(cur, piece, pretty, ind);
                    assert(out@ =~= base + acc_text(cur));
                }
                st = true;
            },
            Err(je) => {
                return Err(je);
            },
        }
        i = i + 1;
    }
    proof {
        assert(ms.skip(ms.len() as int) =~= Seq::<Model>::empty());
    }
    Ok(st)
}

/// Serializes a run of unnamed batches onto an accumulated array body.
#[verifier::loop_isolation(false)]
fn json_unnamed_into(
    bs: &Vec<Vec<Value<'_>>>,
    Ghost(base): Ghost<Seq<char>>,
    sol: bool,
    pretty: bool,
    indent: &Vec<char>,
    Ghost(ind): Ghost<nat>,
    out: &mut Vec<char>,
) -> (r: Result<bool, JsonError>)
    requires
        indent@ == ind_s(pretty, ind),
        old(out)@ == base,
    ensures
        match json_item_batches_from(unnamed_batches_model(bs@), Ok(None), sol, pretty, ind) {
            Ok(acc2) => r matches Ok(st2) && st2 == (acc2 is Some) && final(out)@ == base
                + acc_text(acc2),
            Err(e) => r matches Err(je) && je.spec_message() == e,
        },
    decreases bs@,
{
    let ghost bm = unnamed_batches_model(bs@);
    proof {
        lemma_unnamed_batches_model(bs@);
        assert(bm.skip(0) =~= bm);
    }
    let items = bs.as_slice();
    let mut st: bool = false;
    let ghost mut cur: Option<Seq<char>> = None;
    let mut i: usize = 0;
    proof {
        assert(acc_text(cur) =~= Seq::<char>::empty());
        assert(out@ =~= base + acc_text(cur));
    }
    while i < items.len()
        invariant
            items@ == bs@,
            i <= bs@.len(),
            bm == unnamed_batches_model(bs@),
            bm.len() == bs@.len(),
            st == (cur is Some),
            out@ == base + acc_text(cur),
            json_item_batches_from(bm, Ok(None), sol, pretty, ind) == json_item_batches_from(
                bm.skip(i as int),
                Ok(cur),
                sol,
                pretty,
                ind,
            ),
        decreases bs@.len() - i,
    {
        let b = vstd::slice::slice_index_get(items, i);
        proof {
            lemma_values_model(b@);
            assert(decreases_to!(bs@ => bs@[i as int]));
            assert(decreases_to!(bs@[i as int] => bs@[i as int]@));
            assert(bm.skip(i as int)[0] == bm[i as int]);
            assert(bm.skip(i as int).drop_first() =~= bm.skip(i as int + 1));
        }
        match json_values_into(
            b,
            st,
            Ghost(cur),
            Ghost(base),
            sol,
            pretty,
            indent,
            Ghost(ind),
            out,
        ) {
            Ok(st2) => {
                proof {
                    cur = json_items_from(bm[i as int], Ok(cur), sol, pretty, ind)->Ok_0;
                }
                st = st2;
            },
            Err(je) => {
                proof {
                    lemma_item_batches_err(
                        bm.skip(i as int + 1),
                        je.spec_message(),
                        sol,
                        pretty,
                        ind,
                    );
                }
                return Err(je);
            },
        }
        i = i + 1;
    }
    proof {
        assert(bm.skip(bm.len() as int) =~= Seq::<Seq<Model>>::empty());
    }
    Ok(st)
}

/// Serializes one `name: value` pair onto an accumulated object body.
#[verifier::rlimit(100)]
#[verifier::spinoff_prover]
fn json_one_pair_into(
    nv: &NamedValues<'_>,
    j: usize,
    started: bool,
    Ghost(cur): Ghost<Option<Seq<char>>>,
    Ghost(base): Ghost<Seq<char>>,
    sol: bool,
    pretty: bool,
    indent: &Vec<char>,
    Ghost(ind): Ghost<nat>,
    out: &mut Vec<char>,
) -> (r: Result<(), JsonError>)
    requires
        indent@ == ind_s(pretty, ind),
        started == (cur is Some),
        old(out)@ == base + acc_text(cur),
        j < named_values_model(*nv).len(),
        j < nv.fields@.len(),
        j < nv.values@.len(),
    ensures
        match json_model(named_values_model(*nv)[j as int].1, sol, pretty, ind) {
            Ok(piece) => r is Ok && final(out)@ == base + acc_text(
                json_join(
                    cur,
                    json_string(named_values_model(*nv)[j as int].0, sol) + seq![':'] + sp(pretty)
                        + piece,
                    pretty,
                    ind,
                ),
            ),
            Err(e) => r matches Err(je) && je.spec_message() == e,
        },
    decreases *nv, 1nat,
{
    let ghost pm = named_values_model(*nv);
    proof {
        lemma_pairs_model(nv.fields@, nv.values@);
    }
    write_join_prefix(started, pretty, indent, out);
    let field = nv.fields[j];
    write_json_string(field.name(), sol, out);
    out.push(':');
    if pretty {
        out.push(' ');
    }
    proof {
        assert(decreases_to!(*nv => nv.values@[j as int])) by {
            assert(decreases_to!(*nv => nv.values));
            assert(decreases_to!(nv.values => nv.values@));
            assert(decreases_to!(nv.values@ => nv.values@[j as int]));
        }
    }
    match json_value_into(&nv.values[j], sol, pretty, indent, Ghost(ind), out) {
        Ok(_) => {
            proof {
                let piece = json_model(pm[j as int].1, sol, pretty, ind)->Ok_0;
                assert(out@ =~= base + acc_text(
                    json_join(
                        cur,
                        json_string(pm[j as int].0, sol) + seq![':'] + sp(pretty) + piece,
                        pretty,
                        ind,
                    ),
                ));
            }
            Ok(())
        },
        Err(je) => Err(je),
    }
}

/// Serializes one named batch's pairs onto an accumulated object body.
#[verifier::loop_isolation(false)]
#[verifier::rlimit(100)]
#[verifier::spinoff_prover]
fn json_pairs_into(
    nv: &NamedValues<'_>,
    started: bool,
    Ghost(acc): Ghost<Option<Seq<char>>>,
    Ghost(base): Ghost<Seq<char>>,
    sol: bool,
    pretty: bool,
    indent: &Vec<char>,
    Ghost(ind): Ghost<nat>,
    out: &mut Vec<char>,
) -> (r: Result<bool, JsonError>)
    requires
        indent@ == ind_s(pretty, ind),
        started == (acc is Some),
        old(out)@ == base + acc_text(acc),
    ensures
        match json_pairs_from(named_values_model(*nv), Ok(acc), sol, pretty, ind) {
            Ok(acc2) => r matches Ok(st2) && st2 == (acc2 is Some) && final(out)@ == base
                + acc_text(acc2),
            Err(e) => r matches Err(je) && je.spec_message() == e,
        },
    decreases *nv, 2nat,
{
    let ghost pm = named_values_model(*nv);
    proof {
        lemma_pairs_model(nv.fields@, nv.values@);
        assert(pm.skip(0) =~= pm);
    }
    let fl = nv.fields.len();
    let vl = nv.values.len();
    let k = if fl < vl {
        fl
    } else {
        vl
    };
    let mut st: bool = started;
    let ghost mut cur: Option<Seq<char>> = acc;
    let mut j: usize = 0;
    while j < k
        invariant
            k == pm.len(),
            j <= k,
            pm == named_values_model(*nv),
            st == (cur is Some),
            out@ == base + acc_text(cur),
            json_pairs_from(pm, Ok(acc), sol, pretty, ind) == json_pairs_from(
                pm.skip(j as int),
                Ok(cur),
                sol,
                pretty,
                ind,
            ),
        decreases k - j,
    {
        proof {
            assert(pm.skip(j as int)[0] == pm[j as int]);
            assert(pm.skip(j as int).drop_first() =~= pm.skip(j as int + 1));
        }
        match json_one_pair_into(
            nv,
            j,
            st,
            Ghost(cur),
            Ghost(base),
            sol,
            pretty,
            indent,
            Ghost(ind),
            out,
        ) {
            Ok(_) => {
                proof {
                    let piece = json_model(pm[j as int].1, sol, pretty, ind)->Ok_0;
                    let stepped = json_join(
                        cur,
                        json_string(pm[j as int].0, sol) + seq![':'] + sp(pretty) + piece,
                        pretty,
                        ind,
                    );
                    assert(json_pairs_from(pm.skip(j as int), Ok(cur), sol, pretty, ind)
                        == json_pairs_from(pm.skip(j as int + 1), Ok(stepped), sol, pretty, ind));
                    cur = stepped;
                }
                st = true;
            },
            Err(je) => {
                return Err(je);
            },
        }
        j = j + 1;
    }
    proof {
        assert(pm.skip(pm.len() as int) =~= Seq::<(Seq<char>, Model)>::empty());
    }
    Ok(st)
}

/// Serializes a run of named batches onto an accumulated object body.
#[verifier::loop_isolation(false)]
fn json_named_into(
    bs: &Vec<NamedValues<'_>>,
    Ghost(base): Ghost<Seq<char>>,
    sol: bool,
    pretty: bool,
    indent: &Vec<char>,
    Ghost(ind): Ghost<nat>,
    out: &mut Vec<char>,
) -> (r: Result<bool, JsonError>)
    requires
        indent@ == ind_s(pretty, ind),
        old(out)@ == base,
    ensures
        match json_pair_batches_from(named_batches_model(bs@), Ok(None), sol, pretty, ind) {
            Ok(acc2) => r matches Ok(st2) && st2 == (acc2 is Some) && final(out)@ == base
                + acc_text(acc2),
            Err(e) => r matches Err(je) && je.spec_message() == e,
        },
    decreases bs@,
{
    let ghost bm = named_batches_model(bs@);
    proof {
        lemma_named_batches_model(bs@);
        assert(bm.skip(0) =~= bm);
    }
    let items = bs.as_slice();
    let mut st: bool = false;
    let ghost mut cur: Option<Seq<char>> = None;
    let mut i: usize = 0;
    proof {
        assert(acc_text(cur) =~= Seq::<char>::empty());
        assert(out@ =~= base + acc_text(cur));
    }
    while i < items.len()
        invariant
            items@ == bs@,
            i <= bs@.len(),
            bm == named_batches_model(bs@),
            bm.len() == bs@.len(),
            st == (cur is Some),
            out@ == base + acc_text(cur),
            json_pair_batches_from(bm, Ok(None), sol, pretty, ind) == json_pair_batches_from(
                bm.skip(i as int),
                Ok(cur),
                sol,
                pretty,
                ind,
            ),
        decreases bs@.len() - i,
    {
        let nv = vstd::slice::slice_index_get(items, i);
        proof {
            assert(decreases_to!(bs@ => bs@[i as int]));
            assert(bm.skip(i as int)[0] == bm[i as int]);
            assert(bm.skip(i as int).drop_first() =~= bm.skip(i as int + 1));
        }
        match json_pairs_into(
            nv,
            st,
            Ghost(cur),
            Ghost(base),
            sol,
            pretty,
            indent,
            Ghost(ind),
            out,
        ) {
            Ok(st2) => {
                proof {
                    cur = json_pairs_from(bm[i as int], Ok(cur), sol, pretty, ind)->Ok_0;
                }
                st = st2;
            },
            Err(je) => {
                proof {
                    lemma_pair_batches_err(
                        bm.skip(i as int + 1),
                        je.spec_message(),
                        sol,
                        pretty,
                        ind,
                    );
                }
                return Err(je);
            },
        }
        i = i + 1;
    }
    proof {
        assert(bm.skip(bm.len() as int) =~= Seq::<Seq<(Seq<char>, Model)>>::empty());
    }
    Ok(st)
}

/// Serializes the field batches of a struct-like value as one JSON object
/// or array.
fn json_fields_into(
    fv: &FieldValues<'_>,
    sol: bool,
    pretty: bool,
    indent: &Vec<char>,
    Ghost(ind): Ghost<nat>,
    out: &mut Vec<char>,
) -> (r: Result<(), JsonError>)
    requires
        indent@ == ind_s(pretty, ind),
    ensures
        match (match crate::model::field_values_model(*fv) {
            FieldsModel::Named(bs) => json_object_body(
                json_pair_batches_from(bs, Ok(None), sol, pretty, ind + 1),
                pretty,
                ind,
            ),
            FieldsModel::Unnamed(bs) => json_array_body(
                json_item_batches_from(bs, Ok(None), sol, pretty, ind + 1),
                pretty,
                ind,
            ),
        }) {
            Ok(s) => r is Ok && final(out)@ == old(out)@ + s,
            Err(e) => r matches Err(je) && je.spec_message() == e,
        },
    decreases *fv,
{
    let indent2 = deeper(indent, pretty, Ghost(ind));
    match fv {
        FieldValues::Named(bs) => {
            out.push('{');
            let ghost base = out@;
            proof {
                assert(decreases_to!(*fv => *bs)) by {
                    assert(decreases_to!(*fv => fv->Named_0));
                }
                assert(decreases_to!(*bs => bs@));
            }
            match json_named_into(
                bs,
                Ghost(base),
                sol,
                pretty,
                &indent2,
                Ghost(ind + 1),
                out,
            ) {
                Ok(st) => {
                    if st {
                        write_nl(pretty, out);
                        write_indent(indent, out);
                    }
                    out.push('}');
                    proof {
                        assert(out@ =~= old(out)@ + (match crate::model::field_values_model(*fv) {
                            FieldsModel::Named(bs2) => json_object_body(
                                json_pair_batches_from(bs2, Ok(None), sol, pretty, ind + 1),
                                pretty,
                                ind,
                            ),
                            FieldsModel::Unnamed(bs2) => json_array_body(
                                json_item_batches_from(bs2, Ok(None), sol, pretty, ind + 1),
                                pretty,
                                ind,
                            ),
                        })->Ok_0);
                    }
                    Ok(())
                },
                Err(je) => Err(je),
            }
        },
        FieldValues::Unnamed(bs) => {
            out.push('[');
            let ghost base = out@;
            proof {
                assert(decreases_to!(*fv => *bs)) by {
                    assert(decreases_to!(*fv => fv->Unnamed_0));
                }
                assert(decreases_to!(*bs => bs@));
            }
            match json_unnamed_into(
                bs,
                Ghost(base),
                sol,
                pretty,
                &indent2,
                Ghost(ind + 1),
                out,
            ) {
                Ok(st) => {
                    if st {
                        write_nl(pretty, out);
                        write_indent(indent, out);
                    }
                    out.push(']');
                    proof {
                        assert(out@ =~= old(out)@ + (match crate::model::field_values_model(*fv) {
                            FieldsModel::Named(bs2) => json_object_body(
                                json_pair_batches_from(bs2, Ok(None), sol, pretty, ind + 1),
                                pretty,
                                ind,
                            ),
                            FieldsModel::Unnamed(bs2) => json_array_body(
                                json_item_batches_from(bs2, Ok(None), sol, pretty, ind + 1),
                                pretty,
                                ind,
                            ),
                        })->Ok_0);
                    }
                    Ok(())
                },
                Err(je) => Err(je),
            }
        },
    }
}


/// Serializes a list-like value as a JSON array.
#[verifier::loop_isolation(false)]
#[verifier::rlimit(100)]
#[verifier::spinoff_prover]
fn json_list_into(
    l: &ListValue<'_>,
    Ghost(v): Ghost<Value<'_>>,
    sol: bool,
    pretty: bool,
    indent: &Vec<char>,
    Ghost(ind): Ghost<nat>,
    out: &mut Vec<char>,
) -> (r: Result<(), JsonError>)
    requires
        indent@ == ind_s(pretty, ind),
        v is Listable && v->Listable_0 == *l,
    ensures
        match json_model(value_model(v), sol, pretty, ind) {
            Ok(s) => r is Ok && final(out)@ == old(out)@ + s,
            Err(e) => r matches Err(je) && je.spec_message() == e,
        },
    decreases *l,
{

            out.push('[');
            let ghost base = out@;
            let indent2 = deeper(indent, pretty, Ghost(ind));
            let st_res: Result<bool, JsonError> = match l {
                ListValue::Slice(s) => {
                    let ghost ms = crate::model::slice_model(*s);
                    proof {
                        assert(ms.skip(0) =~= ms);
                    }
                    let n = s.len();
                    let mut st: bool = false;
                    let ghost mut cur: Option<Seq<char>> = None;
                    let mut i: usize = 0;
                    proof {
                        assert(acc_text(cur) =~= Seq::<char>::empty());
                        assert(out@ =~= base + acc_text(cur));
                    }
                    while i < n
                        invariant
                            n == s.spec_len(),
                            i <= n,
                            ms == crate::model::slice_model(*s),
                            ms.len() == n,
                            st == (cur is Some),
                            out@ == base + acc_text(cur),
                            json_items_from(ms, Ok(None), sol, pretty, ind + 1)
                                == json_items_from(
                                ms.skip(i as int),
                                Ok(cur),
                                sol,
                                pretty,
                                ind + 1,
                            ),
                        decreases n - i,
                    {
                        write_join_prefix(st, pretty, &indent2, out);
                        let elem = s.get(i);
                        proof {
                            assert(crate::render::is_scalar(elem));
                            assert(crate::render::is_scalar_model(ms[i as int]));
                            assert(json_model(ms[i as int], sol, pretty, ind + 1) == json_model(
                                ms[i as int],
                                sol,
                                false,
                                0,
                            ));
                            assert(ms.skip(i as int)[0] == ms[i as int]);
                            assert(ms.skip(i as int).drop_first() =~= ms.skip(i as int + 1));
                        }
                        match json_scalar_into(&elem, sol, out) {
                            Ok(_) => {
                                proof {
                                    let piece = json_model(
                                        ms[i as int],
                                        sol,
                                        pretty,
                                        ind + 1,
                                    )->Ok_0;
                                    cur = json_join(cur, piece, pretty, ind + 1);
                                    assert(out@ =~= base + acc_text(cur));
                                }
                                st = true;
                            },
                            Err(_je) => {
                                proof {
                                    assert(false);
                                }
                            },
                        }
                        i = i + 1;
                    }
                    proof {
                        assert(ms.skip(ms.len() as int) =~= Seq::<Model>::empty());
                    }
                    Ok(st)
                },
                ListValue::Values(vs) => {
                    proof {
                        assert(decreases_to!(*l => vs@)) by {
                            assert(decreases_to!(*l => l->Values_0));
                            assert(decreases_to!(l->Values_0 => l->Values_0@));
                        }
                    }
                    json_values_into(
                        vs,
                        false,
                        Ghost(None),
                        Ghost(base),
                        sol,
                        pretty,
                        &indent2,
                        Ghost(ind + 1),
                        out,
                    )
                },
            };
            match st_res {
                Ok(st) => {
                    if st {
                        write_nl(pretty, out);
                        write_indent(indent, out);
                    }
                    out.push(']');
                    proof {
                        assert(out@ =~= old(out)@ + json_model(
                            value_model(v),
                            sol,
                            pretty,
                            ind,
                        )->Ok_0);
                    }
                    Ok(())
                },
                Err(je) => Err(je),
            }
        
}

/// Serializes a map-like value as a JSON object.
#[verifier::loop_isolation(false)]
#[verifier::rlimit(100)]
#[verifier::spinoff_prover]
fn json_map_into(
    m: &crate::value::MapValue<'_>,
    Ghost(v): Ghost<Value<'_>>,
    sol: bool,
    pretty: bool,
    indent: &Vec<char>,
    Ghost(ind): Ghost<nat>,
    out: &mut Vec<char>,
) -> (r: Result<(), JsonError>)
    requires
        indent@ == ind_s(pretty, ind),
        v is Mappable && v->Mappable_0 == *m,
    ensures
        match json_model(value_model(v), sol, pretty, ind) {
            Ok(s) => r is Ok && final(out)@ == old(out)@ + s,
            Err(e) => r matches Err(je) && je.spec_message() == e,
        },
    decreases *m,
{
    out.push('{');
    let ghost base = out@;
    let indent2 = deeper(indent, pretty, Ghost(ind));
    let ghost es = crate::model::map_model(*m);
    proof {
        lemma_entries_model(m.entries@);
        assert(es.skip(0) =~= es);
    }
    let items = m.entries.as_slice();
    let mut st: bool = false;
    let ghost mut cur: Option<Seq<char>> = None;
    let mut i: usize = 0;
    proof {
        assert(acc_text(cur) =~= Seq::<char>::empty());
        assert(out@ =~= base + acc_text(cur));
    }
    while i < items.len()
        invariant
            items@ == m.entries@,
            i <= m.entries@.len(),
            es == crate::model::map_model(*m),
            es.len() == m.entries@.len(),
            st == (cur is Some),
            out@ == base + acc_text(cur),
            json_entries_from(es, Ok(None), sol, pretty, ind + 1) == json_entries_from(
                es.skip(i as int),
                Ok(cur),
                sol,
                pretty,
                ind + 1,
            ),
        decreases m.entries@.len() - i,
    {
        let entry = vstd::slice::slice_index_get(items, i);
        proof {
            assert(decreases_to!(*m => m.entries@[i as int])) by {
                assert(decreases_to!(*m => m.entries));
                assert(decreases_to!(m.entries => m.entries@));
                assert(decreases_to!(m.entries@ => m.entries@[i as int]));
            }
            assert(es.skip(i as int)[0] == es[i as int]);
            assert(es.skip(i as int).drop_first() =~= es.skip(i as int + 1));
        }
        match json_one_entry_into(
            entry,
            st,
            Ghost(cur),
            Ghost(base),
            sol,
            pretty,
            &indent2,
            Ghost(ind + 1),
            out,
        ) {
            Ok(_) => {
                proof {
                    let k = json_key(es[i as int].0, sol)->Ok_0;
                    let piece = json_model(es[i as int].1, sol, pretty, ind + 1)->Ok_0;
                    cur = json_join(cur, k + seq![':'] + sp(pretty) + piece, pretty, ind + 1);
                }
                st = true;
            },
            Err(je) => {
                return Err(je);
            },
        }
        i = i + 1;
    }
    proof {
        assert(es.skip(es.len() as int) =~= Seq::<(Model, Model)>::empty());
    }
    if st {
        write_nl(pretty, out);
        write_indent(indent, out);
    }
    out.push('}');
    proof {
        assert(out@ =~= old(out)@ + json_model(value_model(v), sol, pretty, ind)->Ok_0);
    }
    Ok(())
}

/// Serializes one `key: value` map entry onto an accumulated object body.
#[verifier::rlimit(100)]
#[verifier::spinoff_prover]
fn json_one_entry_into(
    entry: &(Value<'_>, Value<'_>),
    started: bool,
    Ghost(cur): Ghost<Option<Seq<char>>>,
    Ghost(base): Ghost<Seq<char>>,
    sol: bool,
    pretty: bool,
    indent: &Vec<char>,
    Ghost(ind): Ghost<nat>,
    out: &mut Vec<char>,
) -> (r: Result<(), JsonError>)
    requires
        indent@ == ind_s(pretty, ind),
        started == (cur is Some),
        old(out)@ == base + acc_text(cur),
    ensures
        match (json_key(value_model(entry.0), sol), json_model(
            value_model(entry.1),
            sol,
            pretty,
            ind,
        )) {
            (Ok(k), Ok(piece)) => r is Ok && final(out)@ == base + acc_text(
                json_join(cur, k + seq![':'] + sp(pretty) + piece, pretty, ind),
            ),
            (Err(e), _) => r matches Err(je) && je.spec_message() == e,
            (Ok(_), Err(e)) => r matches Err(je) && je.spec_message() == e,
        },
    decreases *entry,
{
    write_join_prefix(started, pretty, indent, out);
    match write_json_key(&entry.0, sol, out) {
        Ok(_) => (),
        Err(je) => {
            return Err(je);
        },
    }
    out.push(':');
    if pretty {
        out.push(' ');
    }
    proof {
        assert(decreases_to!(*entry => entry.1));
    }
    match json_value_into(&entry.1, sol, pretty, indent, Ghost(ind), out) {
        Ok(_) => {
            proof {
                let k = json_key(value_model(entry.0), sol)->Ok_0;
                let piece = json_model(value_model(entry.1), sol, pretty, ind)->Ok_0;
                assert(out@ =~= base + acc_text(
                    json_join(cur, k + seq![':'] + sp(pretty) + piece, pretty, ind),
                ));
            }
            Ok(())
        },
        Err(je) => Err(je),
    }
}

/// Serializes an enum-like value as a one-entry JSON object keyed by its
/// variant name.
#[verifier::rlimit(100)]
#[verifier::spinoff_prover]
fn json_enum_into(
    e: &crate::value::EnumValue<'_>,
    Ghost(v): Ghost<Value<'_>>,
    sol: bool,
    pretty: bool,
    indent: &Vec<char>,
    Ghost(ind): Ghost<nat>,
    out: &mut Vec<char>,
) -> (r: Result<(), JsonError>)
    requires
        indent@ == ind_s(pretty, ind),
        v is Enumerable && v->Enumerable_0 == *e,
    ensures
        match json_model(value_model(v), sol, pretty, ind) {
            Ok(s) => r is Ok && final(out)@ == old(out)@ + s,
            Err(e2) => r matches Err(je) && je.spec_message() == e2,
        },
    decreases *e,
{
    let ghost em = crate::model::enum_model(*e);
    let ghost fm = crate::model::field_values_model(e.fields);
    let ghost body_res = (match fm {
        FieldsModel::Named(bs) => json_object_body(
            json_pair_batches_from(bs, Ok(None), sol, pretty, ind + 2),
            pretty,
            (ind + 1) as nat,
        ),
        FieldsModel::Unnamed(bs) => json_array_body(
            json_item_batches_from(bs, Ok(None), sol, pretty, ind + 2),
            pretty,
            (ind + 1) as nat,
        ),
    });
    proof {
        assert(value_model(v) == Model::Enum(em));
        assert(json_model(value_model(v), sol, pretty, ind) == (match body_res {
            Ok(body) => Ok::<Seq<char>, Seq<char>>(
                seq!['{'] + nl(pretty) + ind_s(pretty, ind + 1) + json_string(em.variant, sol)
                    + seq![':'] + sp(pretty) + body + nl(pretty) + ind_s(pretty, ind)
                    + seq!['}'],
            ),
            Err(e2) => Err(e2),
        }));
    }
    out.push('{');
    let indent2 = deeper(indent, pretty, Ghost(ind));
    write_nl(pretty, out);
    write_indent(&indent2, out);
    write_json_string(e.variant().name(), sol, out);
    out.push(':');
    if pretty {
        out.push(' ');
    }
    let ghost pre = out@;
    proof {
        assert(pre =~= old(out)@ + seq!['{'] + nl(pretty) + ind_s(pretty, ind + 1)
            + json_string(em.variant, sol) + seq![':'] + sp(pretty));
        assert(decreases_to!(*e => e.fields));
    }
    match json_fields_into(&e.fields, sol, pretty, &indent2, Ghost(ind + 1), out) {
        Ok(_) => {
            proof {
                assert(out@ == pre + body_res->Ok_0);
            }
            write_nl(pretty, out);
            write_indent(indent, out);
            out.push('}');
            proof {
                assert(out@ =~= old(out)@ + json_model(value_model(v), sol, pretty, ind)->Ok_0);
            }
            Ok(())
        },
        Err(je) => Err(je),
    }
}

/// Serializes a tuple-like value: `null` for the unit tuple, and a JSON
/// array of the positional fields otherwise.
#[verifier::rlimit(100)]
#[verifier::spinoff_prover]
fn json_tuple_into(
    t: &crate::value::TupleValue<'_>,
    Ghost(v): Ghost<Value<'_>>,
    sol: bool,
    pretty: bool,
    indent: &Vec<char>,
    Ghost(ind): Ghost<nat>,
    out: &mut Vec<char>,
) -> (r: Result<(), JsonError>)
    requires
        indent@ == ind_s(pretty, ind),
        v is Tuplable && v->Tuplable_0 == *t,
    ensures
        match json_model(value_model(v), sol, pretty, ind) {
            Ok(s) => r is Ok && final(out)@ == old(out)@ + s,
            Err(e) => r matches Err(je) && je.spec_message() == e,
        },
    decreases *t,
{
    if t.definition().is_unit() {
        out.push('n');
        out.push('u');
        out.push('l');
        out.push('l');
        proof {
            assert(out@ =~= old(out)@ + json_model(value_model(v), sol, pretty, ind)->Ok_0);
        }
        Ok(())
    } else {
        out.push('[');
        let ghost base = out@;
        let indent2 = deeper(indent, pretty, Ghost(ind));
        proof {
            assert(decreases_to!(*t => t.fields@)) by {
                assert(decreases_to!(*t => t.fields));
                assert(decreases_to!(t.fields => t.fields@));
            }
        }
        match json_unnamed_into(
            &t.fields,
            Ghost(base),
            sol,
            pretty,
            &indent2,
            Ghost(ind + 1),
            out,
        ) {
            Ok(st) => {
                if st {
                    write_nl(pretty, out);
                    write_indent(indent, out);
                }
                out.push(']');
                proof {
                    assert(out@ =~= old(out)@ + json_model(
                        value_model(v),
                        sol,
                        pretty,
                        ind,
                    )->Ok_0);
                }
                Ok(())
            },
            Err(je) => Err(je),
        }
    }
}

/// Serializes any value as JSON.
#[verifier::loop_isolation(false)]
#[verifier::rlimit(100)]
#[verifier::spinoff_prover]
fn json_value_into(
    v: &Value<'_>,
    sol: bool,
    pretty: bool,
    indent: &Vec<char>,
    Ghost(ind): Ghost<nat>,
    out: &mut Vec<char>,
) -> (r: Result<(), JsonError>)
    requires
        indent@ == ind_s(pretty, ind),
    ensures
        match json_model(value_model(*v), sol, pretty, ind) {
            Ok(s) => r is Ok && final(out)@ == old(out)@ + s,
            Err(e) => r matches Err(je) && je.spec_message() == e,
        },
    decreases *v,
{
    match v {
        Value::Listable(l) => {
            proof {
                assert(decreases_to!(*v => *l)) by {
                    assert(decreases_to!(*v => v->Listable_0));
                }
            }
            json_list_into(l, Ghost(*v), sol, pretty, indent, Ghost(ind), out)
        },
        Value::Mappable(m) => {
            proof {
                assert(decreases_to!(*v => *m)) by {
                    assert(decreases_to!(*v => v->Mappable_0));
                }
            }
            json_map_into(m, Ghost(*v), sol, pretty, indent, Ghost(ind), out)
        },
        Value::Structable(s) => {
            proof {
                assert(decreases_to!(*v => s.fields)) by {
                    assert(decreases_to!(*v => v->Structable_0));
                    assert(decreases_to!(v->Structable_0 => v->Structable_0.fields));
                }
            }
            json_fields_into(&s.fields, sol, pretty, indent, Ghost(ind), out)
        },
        Value::Enumerable(e) => {
            proof {
                assert(decreases_to!(*v => *e)) by {
                    assert(decreases_to!(*v => v->Enumerable_0));
                }
            }
            json_enum_into(e, Ghost(*v), sol, pretty, indent, Ghost(ind), out)
        },
        Value::Tuplable(t) => {
            proof {
                assert(decreases_to!(*v => *t)) by {
                    assert(decreases_to!(*v => v->Tuplable_0));
                }
            }
            json_tuple_into(t, Ghost(*v), sol, pretty, indent, Ghost(ind), out)
        },
        _ => {
            json_scalar_into(v, sol, out)
        },
    }
}

/// A JSON serializer: collects the serialized text of the values handed to
/// `serialize`.
pub struct Serializer {
    out: Vec<char>,
    pretty: bool,
    sol: bool,
}

impl Serializer {
    /// The characters serialized so far.
    pub closed spec fn spec_out(&self) -> Seq<char> {
        self.out@
    }

    /// Whether the serializer pretty-prints.
    pub closed spec fn spec_pretty(&self) -> bool {
        self.pretty
    }

    /// Whether the serializer escapes solidus characters.
    pub closed spec fn spec_solidus(&self) -> bool {
        self.sol
    }

    /// Creates a new JSON serializer producing compact output.
    pub fn new() -> (r: Serializer)
        ensures
            r.spec_out() == Seq::<char>::empty(),
            !r.spec_pretty(),
            !r.spec_solidus(),
    {
        Serializer { out: Vec::new(), pretty: false, sol: false }
    }

    /// Creates a new JSON serializer producing pretty-printed output,
    /// indented by two spaces per nesting level.
    pub fn pretty() -> (r: Serializer)
        ensures
            r.spec_out() == Seq::<char>::empty(),
            r.spec_pretty(),
            !r.spec_solidus(),
    {
        Serializer { out: Vec::new(), pretty: true, sol: false }
    }

    /// Asks for solidus characters (`/`) to be escaped. By default they are
    /// serialized without an escape.
    pub fn escape_solidus(&mut self)
        ensures
            final(self).spec_solidus(),
            final(self).spec_pretty() == old(self).spec_pretty(),
            final(self).spec_out() == old(self).spec_out(),
    {
        self.sol = true;
    }

    /// Serializes the given value, appending its JSON text to the output.
    /// An error reports the first value kind met that JSON cannot carry,
    /// and leaves the output exactly as it stood: nothing of the failed
    /// value is written.
    pub fn serialize<T: Valuable>(&mut self, value: &T) -> (r: Result<(), JsonError>)
        ensures
            match json_model(value.spec_model(), old(self).spec_solidus(), old(
                self,
            ).spec_pretty(), 0) {
                Ok(s) => r is Ok && final(self).spec_out() == old(self).spec_out() + s,
                Err(e) => (r matches Err(je) && je.spec_message() == e) && final(self).spec_out()
                    == old(self).spec_out(),
            },
            final(self).spec_pretty() == old(self).spec_pretty(),
            final(self).spec_solidus() == old(self).spec_solidus(),
    {
        let v = value.as_value();
        let indent: Vec<char> = Vec::new();
        proof {
            assert(indent@ =~= ind_s(self.pretty, 0));
        }
        let mut piece: Vec<char> = Vec::new();
        match json_value_into(&v, self.sol, self.pretty, &indent, Ghost(0nat), &mut piece) {
            Ok(_) => {
                self.out.append(&mut piece);
                Ok(())
            },
            Err(je) => Err(je),
        }
    }

    /// Returns the serialized text.
    pub fn into_output(self) -> (r: Vec<char>)
        ensures
            r@ == self.spec_out(),
    {
        self.out
    }
}

/// Serializes the given value as a byte vector of compact JSON.
pub fn to_vec<T: Valuable>(value: &T) -> (r: Result<Vec<u8>, JsonError>)
    ensures
        match json_model(value.spec_model(), false, false, 0) {
            Ok(s) => r matches Ok(b) && b@ == vstd::utf8::encode_utf8(s),
            Err(e) => r matches Err(je) && je.spec_message() == e,
        },
{
    let mut ser = Serializer::new();
    match ser.serialize(value) {
        Ok(_) => {
            let chars = ser.into_output();
            Ok(crate::strings::chars_to_bytes(&chars))
        },
        Err(je) => Err(je),
    }
}

/// Serializes the given value as a byte vector of pretty-printed JSON.
pub fn to_vec_pretty<T: Valuable>(value: &T) -> (r: Result<Vec<u8>, JsonError>)
    ensures
        match json_model(value.spec_model(), false, true, 0) {
            Ok(s) => r matches Ok(b) && b@ == vstd::utf8::encode_utf8(s),
            Err(e) => r matches Err(je) && je.spec_message() == e,
        },
{
    let mut ser = Serializer::pretty();
    match ser.serialize(value) {
        Ok(_) => {
            let chars = ser.into_output();
            Ok(crate::strings::chars_to_bytes(&chars))
        },
        Err(je) => Err(je),
    }
}

} // verus!
