use vstd::prelude::*;

use crate::model::{
    lemma_named_batches_model, lemma_pairs_model, lemma_unnamed_batches_model,
    lemma_values_model, named_batches_model, named_values_model, unnamed_batches_model,
    value_model, values_model, FieldsModel, Model,
};
use crate::named_values::NamedValues;
use crate::value::{FieldValues, ListValue, Value};

verus! {

/// The character for one decimal digit.
pub open spec fn digit_char(d: int) -> char {
    if d == 0 {
        '0'
    } else if d == 1 {
        '1'
    } else if d == 2 {
        '2'
    } else if d == 3 {
        '3'
    } else if d == 4 {
        '4'
    } else if d == 5 {
        '5'
    } else if d == 6 {
        '6'
    } else if d == 7 {
        '7'
    } else if d == 8 {
        '8'
    } else {
        '9'
    }
}

/// The decimal digits of a non-negative integer, most significant first.
pub open spec fn dec_digits(n: int) -> Seq<char>
    recommends
        n >= 0,
    decreases n,
{
    if n < 10 {
        seq![digit_char(n)]
    } else {
        dec_digits(n / 10).push(digit_char(n % 10))
    }
}

/// The decimal rendering of an integer, with a leading minus sign when
/// negative.
pub open spec fn int_str(n: int) -> Seq<char> {
    if n < 0 {
        seq!['-'] + dec_digits(-n)
    } else {
        dec_digits(n)
    }
}

/// How one character is escaped inside a quoted rendering: backslashes, the
/// quote character itself, and the common control characters get a
/// backslash escape; every other character stands for itself.
pub open spec fn esc_char(c: char, quote: char) -> Seq<char> {
    if c == '\\' {
        seq!['\\', '\\']
    } else if c == quote {
        seq!['\\', quote]
    } else if c == '\n' {
        seq!['\\', 'n']
    } else if c == '\r' {
        seq!['\\', 'r']
    } else if c == '\t' {
        seq!['\\', 't']
    } else {
        seq![c]
    }
}

/// A character sequence escaped for a quoted rendering.
pub open spec fn esc_seq(s: Seq<char>, quote: char) -> Seq<char>
    decreases s.len(),
{
    if s.len() == 0 {
        Seq::empty()
    } else {
        esc_char(s[0], quote) + esc_seq(s.drop_first(), quote)
    }
}

/// The separator between rendered items.
pub open spec fn sep() -> Seq<char> {
    seq![',', ' ']
}

/// True if every batch in the run is empty.
pub open spec fn all_batches_empty<A>(bs: Seq<Seq<A>>) -> bool {
    forall|i: int| 0 <= i < bs.len() ==> bs[i].len() == 0
}

/// The rendering of a run of items, separated by `, `. `first` says whether
/// nothing has been emitted yet inside the enclosing brackets.
pub open spec fn render_items_seq(ms: Seq<Model>, first: bool) -> Seq<char>
    decreases ms,
{
    if ms.len() == 0 {
        Seq::empty()
    } else {
        (if first {
            Seq::<char>::empty()
        } else {
            sep()
        }) + render_model(ms[0]) + render_items_seq(ms.drop_first(), false)
    }
}

/// The rendering of a run of item batches.
pub open spec fn render_item_batches(bs: Seq<Seq<Model>>, first: bool) -> Seq<char>
    decreases bs,
{
    if bs.len() == 0 {
        Seq::empty()
    } else {
        render_items_seq(bs[0], first) + render_item_batches(
            bs.drop_first(),
            first && bs[0].len() == 0,
        )
    }
}

/// The rendering of a run of named pairs, `name: value`, separated by `, `.
pub open spec fn render_pairs_seq(ps: Seq<(Seq<char>, Model)>, first: bool) -> Seq<char>
    decreases ps,
{
    if ps.len() == 0 {
        Seq::empty()
    } else {
        (if first {
            Seq::<char>::empty()
        } else {
            sep()
        }) + ps[0].0 + seq![':', ' '] + render_model(ps[0].1) + render_pairs_seq(
            ps.drop_first(),
            false,
        )
    }
}

/// The rendering of a run of named-pair batches.
pub open spec fn render_pair_batches(bs: Seq<Seq<(Seq<char>, Model)>>, first: bool) -> Seq<char>
    decreases bs,
{
    if bs.len() == 0 {
        Seq::empty()
    } else {
        render_pairs_seq(bs[0], first) + render_pair_batches(
            bs.drop_first(),
            first && bs[0].len() == 0,
        )
    }
}

/// The rendering of a run of map entries, `key: value`, separated by `, `.
pub open spec fn render_entries_seq(es: Seq<(Model, Model)>, first: bool) -> Seq<char>
    decreases es,
{
    if es.len() == 0 {
        Seq::empty()
    } else {
        (if first {
            Seq::<char>::empty()
        } else {
            sep()
        }) + render_model(es[0].0) + seq![':', ' '] + render_model(es[0].1) + render_entries_seq(
            es.drop_first(),
            false,
        )
    }
}

/// The total number of items across a run of batches.
pub open spec fn batches_item_count(bs: Seq<Seq<Model>>) -> nat
    decreases bs,
{
    if bs.len() == 0 {
        0nat
    } else {
        bs[0].len() + batches_item_count(bs.drop_first())
    }
}

/// What a field list adds after the producer's name: nothing for an empty
/// field list, ` { a: x, ... }` for named fields, and `(x, ...)` for
/// unnamed fields.
pub open spec fn fields_suffix(fm: FieldsModel) -> Seq<char>
    decreases fm,
{
    match fm {
        FieldsModel::Named(bs) => {
            if all_batches_empty(bs) {
                Seq::empty()
            } else {
                seq![' ', '{', ' '] + render_pair_batches(bs, true) + seq![' ', '}']
            }
        },
        FieldsModel::Unnamed(bs) => {
            if all_batches_empty(bs) {
                Seq::empty()
            } else {
                seq!['('] + render_item_batches(bs, true) + seq![')']
            }
        },
    }
}

/// The rendering of a named or unnamed field list after its name: a bare
/// name for an empty field list, `name { a: x, ... }` for named fields, and
/// `name(x, ...)` for unnamed fields.
pub open spec fn render_fields(name: Seq<char>, fm: FieldsModel) -> Seq<char> {
    name + fields_suffix(fm)
}

/// The human-readable rendering of a value: scalars as their literal forms,
/// strings and characters quoted and escaped, lists in brackets, maps in
/// braces, named fields as `Name { field: value, ... }`, unnamed fields as
/// `Name(value, ...)`, and enum variants as `Enum::Variant...`. A `Static`
/// and a `Dynamic` definition of the same content render identically.
pub open spec fn render_model(m: Model) -> Seq<char>
    decreases m,
{
    match m {
        Model::Bool(b) => if b {
            seq!['t', 'r', 'u', 'e']
        } else {
            seq!['f', 'a', 'l', 's', 'e']
        },
        Model::Char(c) => seq!['\''] + esc_char(c, '\'') + seq!['\''],
        Model::I8(n) => int_str(n),
        Model::I16(n) => int_str(n),
        Model::I32(n) => int_str(n),
        Model::I64(n) => int_str(n),
        Model::I128(n) => int_str(n),
        Model::Isize(n) => int_str(n),
        Model::Str(s) => seq!['"'] + esc_seq(s, '"') + seq!['"'],
        Model::U8(n) => int_str(n),
        Model::U16(n) => int_str(n),
        Model::U32(n) => int_str(n),
        Model::U64(n) => int_str(n),
        Model::U128(n) => int_str(n),
        Model::Usize(n) => int_str(n),
        Model::Error(s) => s,
        Model::Rendered(s) => s,
        Model::List(ms) => seq!['['] + render_items_seq(ms, true) + seq![']'],
        Model::Mapping(es) => seq!['{'] + render_entries_seq(es, true) + seq!['}'],
        Model::Struct(sm) => sm.name + fields_suffix(sm.fields),
        Model::Enum(em) => em.name + seq![':', ':'] + em.variant + fields_suffix(em.fields),
        Model::Tuple(tm) => {
            if batches_item_count(tm.batches) == 1 {
                seq!['('] + render_item_batches(tm.batches, true) + seq![',', ')']
            } else {
                seq!['('] + render_item_batches(tm.batches, true) + seq![')']
            }
        },
        Model::Unit => seq!['(', ')'],
    }
}

/// Escaping distributes over appending one character.
pub proof fn lemma_esc_seq_push(s: Seq<char>, c: char, quote: char)
    ensures
        esc_seq(s.push(c), quote) == esc_seq(s, quote) + esc_char(c, quote),
    decreases s.len(),
{
    reveal_with_fuel(esc_seq, 3);
    if s.len() == 0 {
        assert(s.push(c).drop_first() =~= Seq::<char>::empty());
        assert(esc_seq(s.push(c), quote) =~= esc_seq(s, quote) + esc_char(c, quote));
    } else {
        lemma_esc_seq_push(s.drop_first(), c, quote);
        assert(s.push(c).drop_first() =~= s.drop_first().push(c));
        assert(esc_seq(s.push(c), quote) =~= esc_seq(s, quote) + esc_char(c, quote));
    }
}

/// Rendering a run of items distributes over appending one item.
pub proof fn lemma_items_push(s: Seq<Model>, x: Model, first: bool)
    ensures
        render_items_seq(s.push(x), first) == render_items_seq(s, first) + (if first && s.len()
            == 0 {
            Seq::<char>::empty()
        } else {
            sep()
        }) + render_model(x),
    decreases s.len(),
{
    reveal_with_fuel(render_items_seq, 3);
    if s.len() == 0 {
        assert(s.push(x).drop_first() =~= Seq::<Model>::empty());
        assert(render_items_seq(s.push(x), first) =~= render_items_seq(s, first) + (if first {
            Seq::<char>::empty()
        } else {
            sep()
        }) + render_model(x));
    } else {
        lemma_items_push(s.drop_first(), x, false);
        assert(s.push(x).drop_first() =~= s.drop_first().push(x));
        assert(render_items_seq(s.push(x), first) =~= render_items_seq(s, first) + sep()
            + render_model(x));
    }
}

/// Rendering a run of named pairs distributes over appending one pair.
pub proof fn lemma_pairs_push(s: Seq<(Seq<char>, Model)>, x: (Seq<char>, Model), first: bool)
    ensures
        render_pairs_seq(s.push(x), first) == render_pairs_seq(s, first) + (if first && s.len()
            == 0 {
            Seq::<char>::empty()
        } else {
            sep()
        }) + x.0 + seq![':', ' '] + render_model(x.1),
    decreases s.len(),
{
    reveal_with_fuel(render_pairs_seq, 3);
    if s.len() == 0 {
        assert(s.push(x).drop_first() =~= Seq::<(Seq<char>, Model)>::empty());
        assert(render_pairs_seq(s.push(x), first) =~= render_pairs_seq(s, first) + (if first {
            Seq::<char>::empty()
        } else {
            sep()
        }) + x.0 + seq![':', ' '] + render_model(x.1));
    } else {
        lemma_pairs_push(s.drop_first(), x, false);
        assert(s.push(x).drop_first() =~= s.drop_first().push(x));
        assert(render_pairs_seq(s.push(x), first) =~= render_pairs_seq(s, first) + sep() + x.0
            + seq![':', ' '] + render_model(x.1));
    }
}

/// Rendering a run of map entries distributes over appending one entry.
pub proof fn lemma_entries_push(s: Seq<(Model, Model)>, x: (Model, Model), first: bool)
    ensures
        render_entries_seq(s.push(x), first) == render_entries_seq(s, first) + (if first && s.len()
            == 0 {
            Seq::<char>::empty()
        } else {
            sep()
        }) + render_model(x.0) + seq![':', ' '] + render_model(x.1),
    decreases s.len(),
{
    reveal_with_fuel(render_entries_seq, 3);
    if s.len() == 0 {
        assert(s.push(x).drop_first() =~= Seq::<(Model, Model)>::empty());
        assert(render_entries_seq(s.push(x), first) =~= render_entries_seq(s, first) + (if first {
            Seq::<char>::empty()
        } else {
            sep()
        }) + render_model(x.0) + seq![':', ' '] + render_model(x.1));
    } else {
        lemma_entries_push(s.drop_first(), x, false);
        assert(s.push(x).drop_first() =~= s.drop_first().push(x));
        assert(render_entries_seq(s.push(x), first) =~= render_entries_seq(s, first) + sep()
            + render_model(x.0) + seq![':', ' '] + render_model(x.1));
    }
}

/// Rendering a run of item batches distributes over appending one batch.
pub proof fn lemma_item_batches_push(bs: Seq<Seq<Model>>, b: Seq<Model>, first: bool)
    ensures
        render_item_batches(bs.push(b), first) == render_item_batches(bs, first)
            + render_items_seq(b, first && all_batches_empty(bs)),
        all_batches_empty(bs.push(b)) == (all_batches_empty(bs) && b.len() == 0),
    decreases bs.len(),
{
    reveal_with_fuel(render_item_batches, 3);
    assert(all_batches_empty(bs.push(b)) == (all_batches_empty(bs) && b.len() == 0)) by {
        assert(bs.push(b)[bs.len() as int] == b);
        assert(forall|i: int| 0 <= i < bs.len() ==> bs.push(b)[i] == bs[i]);
        if all_batches_empty(bs) && b.len() == 0 {
            assert forall|i: int| 0 <= i < bs.push(b).len() implies bs.push(b)[i].len() == 0 by {
                if i < bs.len() {
                    assert(bs.push(b)[i] == bs[i]);
                }
            }
        }
    }
    if bs.len() == 0 {
        assert(bs.push(b).drop_first() =~= Seq::<Seq<Model>>::empty());
        assert(bs.push(b)[0] == b);
        assert(render_item_batches(bs.push(b), first) =~= render_items_seq(b, first));
        assert(all_batches_empty(bs));
    } else {
        lemma_item_batches_push(bs.drop_first(), b, first && bs[0].len() == 0);
        assert(bs.push(b).drop_first() =~= bs.drop_first().push(b));
        assert(((first && bs[0].len() == 0) && all_batches_empty(bs.drop_first())) == (first
            && all_batches_empty(bs))) by {
            if all_batches_empty(bs.drop_first()) && bs[0].len() == 0 {
                assert forall|i: int| 0 <= i < bs.len() implies bs[i].len() == 0 by {
                    if i > 0 {
                        assert(bs.drop_first()[i - 1] == bs[i]);
                    }
                }
            }
            if all_batches_empty(bs) {
                assert forall|i: int|
                    0 <= i < bs.drop_first().len() implies bs.drop_first()[i].len() == 0 by {
                    assert(bs.drop_first()[i] == bs[i + 1]);
                }
            }
        }
        assert(render_item_batches(bs.push(b), first) =~= render_item_batches(bs, first)
            + render_items_seq(b, first && all_batches_empty(bs)));
    }
}

/// Rendering a run of pair batches distributes over appending one batch.
pub proof fn lemma_pair_batches_push(
    bs: Seq<Seq<(Seq<char>, Model)>>,
    b: Seq<(Seq<char>, Model)>,
    first: bool,
)
    ensures
        render_pair_batches(bs.push(b), first) == render_pair_batches(bs, first)
            + render_pairs_seq(b, first && all_batches_empty(bs)),
        all_batches_empty(bs.push(b)) == (all_batches_empty(bs) && b.len() == 0),
    decreases bs.len(),
{
    reveal_with_fuel(render_pair_batches, 3);
    assert(all_batches_empty(bs.push(b)) == (all_batches_empty(bs) && b.len() == 0)) by {
        assert(bs.push(b)[bs.len() as int] == b);
        assert(forall|i: int| 0 <= i < bs.len() ==> bs.push(b)[i] == bs[i]);
        if all_batches_empty(bs) && b.len() == 0 {
            assert forall|i: int| 0 <= i < bs.push(b).len() implies bs.push(b)[i].len() == 0 by {
                if i < bs.len() {
                    assert(bs.push(b)[i] == bs[i]);
                }
            }
        }
    }
    if bs.len() == 0 {
        assert(bs.push(b).drop_first() =~= Seq::<Seq<(Seq<char>, Model)>>::empty());
        assert(bs.push(b)[0] == b);
        assert(render_pair_batches(bs.push(b), first) =~= render_pairs_seq(b, first));
        assert(all_batches_empty(bs));
    } else {
        lemma_pair_batches_push(bs.drop_first(), b, first && bs[0].len() == 0);
        assert(bs.push(b).drop_first() =~= bs.drop_first().push(b));
        assert(((first && bs[0].len() == 0) && all_batches_empty(bs.drop_first())) == (first
            && all_batches_empty(bs))) by {
            if all_batches_empty(bs.drop_first()) && bs[0].len() == 0 {
                assert forall|i: int| 0 <= i < bs.len() implies bs[i].len() == 0 by {
                    if i > 0 {
                        assert(bs.drop_first()[i - 1] == bs[i]);
                    }
                }
            }
            if all_batches_empty(bs) {
                assert forall|i: int|
                    0 <= i < bs.drop_first().len() implies bs.drop_first()[i].len() == 0 by {
                    assert(bs.drop_first()[i] == bs[i + 1]);
                }
            }
        }
        assert(render_pair_batches(bs.push(b), first) =~= render_pair_batches(bs, first)
            + render_pairs_seq(b, first && all_batches_empty(bs)));
    }
}

/// The item count of a run of batches distributes over appending one batch.
pub proof fn lemma_batches_count_push(bs: Seq<Seq<Model>>, b: Seq<Model>)
    ensures
        batches_item_count(bs.push(b)) == batches_item_count(bs) + b.len(),
    decreases bs.len(),
{
    reveal_with_fuel(batches_item_count, 3);
    if bs.len() == 0 {
        assert(bs.push(b).drop_first() =~= Seq::<Seq<Model>>::empty());
        assert(bs.push(b)[0] == b);
    } else {
        lemma_batches_count_push(bs.drop_first(), b);
        assert(bs.push(b).drop_first() =~= bs.drop_first().push(b));
    }
}

/// True if the value is a scalar: not one of the extension arms.
pub open spec fn is_scalar(v: Value<'_>) -> bool {
    !(v is Listable || v is Mappable || v is Structable || v is Enumerable || v is Tuplable)
}

/// True if the model is a scalar's: not a list, map, struct, enum or tuple.
pub open spec fn is_scalar_model(m: Model) -> bool {
    !(m is List || m is Mapping || m is Struct || m is Enum || m is Tuple)
}

/// The character for one decimal digit, as executable code.
pub(crate) fn digit_to_char(d: u128) -> (c: char)
    requires
        d < 10,
    ensures
        c == digit_char(d as int),
{
    if d == 0 {
        '0'
    } else if d == 1 {
        '1'
    } else if d == 2 {
        '2'
    } else if d == 3 {
        '3'
    } else if d == 4 {
        '4'
    } else if d == 5 {
        '5'
    } else if d == 6 {
        '6'
    } else if d == 7 {
        '7'
    } else if d == 8 {
        '8'
    } else {
        '9'
    }
}

/// Writes the decimal digits of an unsigned number.
#[verifier::loop_isolation(false)]
pub(crate) fn write_unsigned(n: u128, out: &mut Vec<char>)
    ensures
        final(out)@ == old(out)@ + dec_digits(n as int),
{
    let mut digits: Vec<char> = Vec::new();
    let mut m: u128 = n;
    let d0 = digit_to_char(m % 10);
    digits.push(d0);
    m = m / 10;
    proof {
        if n < 10 {
            assert(digits@.reverse() =~= dec_digits(n as int));
        } else {
            assert(dec_digits(n as int) == dec_digits(m as int).push(digit_char(n as int % 10)));
            assert(dec_digits(n as int) =~= dec_digits(m as int) + digits@.reverse());
        }
    }
    while m > 0
        invariant
            dec_digits(n as int) == (if m == 0 {
                digits@.reverse()
            } else {
                dec_digits(m as int) + digits@.reverse()
            }),
            digits@.len() >= 1,
        decreases m,
    {
        let ghost m_old = m as int;
        let ghost digits_old = digits@;
        let d = digit_to_char(m % 10);
        digits.push(d);
        m = m / 10;
        proof {
            assert(digits@.reverse() =~= seq![digit_char(m_old % 10)] + digits_old.reverse());
            if m == 0 {
                assert(dec_digits(m_old) =~= seq![digit_char(m_old)]);
                assert(dec_digits(n as int) =~= digits@.reverse());
            } else {
                assert(dec_digits(m_old) == dec_digits(m_old / 10).push(digit_char(m_old % 10)));
                assert(dec_digits(m_old) =~= dec_digits(m as int) + seq![digit_char(m_old % 10)]);
                assert(dec_digits(n as int) =~= dec_digits(m as int) + digits@.reverse());
            }
        }
    }
    let k = digits.len();
    let mut j: usize = 0;
    while j < k
        invariant
            k == digits@.len(),
            j <= k,
            out@ == old(out)@ + digits@.reverse().take(j as int),
        decreases k - j,
    {
        let c = crate::strings::char_at(digits.as_slice(), k - 1 - j);
        out.push(c);
        proof {
            assert(digits@.reverse()[j as int] == digits@[k - 1 - j]);
            assert(digits@.reverse().take(j as int + 1) =~= digits@.reverse().take(j as int).push(
                digits@.reverse()[j as int],
            ));
            assert(out@ =~= old(out)@ + digits@.reverse().take(j as int + 1));
        }
        j = j + 1;
    }
    proof {
        assert(digits@.reverse().take(k as int) =~= digits@.reverse());
    }
}

/// Writes the decimal rendering of a signed number.
pub(crate) fn write_signed(x: i128, out: &mut Vec<char>)
    ensures
        final(out)@ == old(out)@ + int_str(x as int),
{
    if x >= 0 {
        write_unsigned(x as u128, out);
    } else {
        out.push('-');
        let mag: u128 = if x == i128::MIN {
            170141183460469231731687303715884105728u128
        } else {
            (-x) as u128
        };
        proof {
            assert(mag as int == -(x as int));
        }
        let ghost mid = out@;
        write_unsigned(mag, out);
        proof {
            assert(out@ =~= old(out)@ + int_str(x as int));
        }
    }
}

/// Writes one character, escaped for a rendering quoted with `quote`.
fn write_char_esc(c: char, quote: char, out: &mut Vec<char>)
    ensures
        final(out)@ == old(out)@ + esc_char(c, quote),
{
    if c == '\\' {
        out.push('\\');
        out.push('\\');
        proof {
            assert(out@ =~= old(out)@ + esc_char(c, quote));
        }
    } else if c == quote {
        out.push('\\');
        out.push(quote);
        proof {
            assert(out@ =~= old(out)@ + esc_char(c, quote));
        }
    } else if c == '\n' {
        out.push('\\');
        out.push('n');
        proof {
            assert(out@ =~= old(out)@ + esc_char(c, quote));
        }
    } else if c == '\r' {
        out.push('\\');
        out.push('r');
        proof {
            assert(out@ =~= old(out)@ + esc_char(c, quote));
        }
    } else if c == '\t' {
        out.push('\\');
        out.push('t');
        proof {
            assert(out@ =~= old(out)@ + esc_char(c, quote));
        }
    } else {
        out.push(c);
        proof {
            assert(out@ =~= old(out)@ + esc_char(c, quote));
        }
    }
}

/// Writes a string's characters, escaped for a rendering quoted with
/// `quote`.
#[verifier::loop_isolation(false)]
fn write_str_esc(s: &str, quote: char, out: &mut Vec<char>)
    ensures
        final(out)@ == old(out)@ + esc_seq(s@, quote),
{
    let chars = crate::strings::str_chars(s);
    let mut i: usize = 0;
    proof {
        assert(esc_seq(s@.take(0), quote) =~= Seq::<char>::empty());
        assert(out@ =~= old(out)@ + esc_seq(s@.take(0), quote));
    }
    while i < chars.len()
        invariant
            chars@ == s@,
            i <= s@.len(),
            out@ == old(out)@ + esc_seq(s@.take(i as int), quote),
        decreases s@.len() - i,
    {
        let c = crate::strings::char_at(chars.as_slice(), i);
        write_char_esc(c, quote, out);
        proof {
            assert(s@.take(i as int + 1) =~= s@.take(i as int).push(s@[i as int]));
            lemma_esc_seq_push(s@.take(i as int), s@[i as int], quote);
            assert(out@ =~= old(out)@ + esc_seq(s@.take(i as int + 1), quote));
        }
        i = i + 1;
    }
    proof {
        assert(s@.take(s@.len() as int) =~= s@);
    }
}

/// Writes a string's characters as they stand.
#[verifier::loop_isolation(false)]
pub(crate) fn write_str_raw(s: &str, out: &mut Vec<char>)
    ensures
        final(out)@ == old(out)@ + s@,
{
    let chars = crate::strings::str_chars(s);
    let mut i: usize = 0;
    while i < chars.len()
        invariant
            chars@ == s@,
            i <= s@.len(),
            out@ == old(out)@ + s@.take(i as int),
        decreases s@.len() - i,
    {
        let c = crate::strings::char_at(chars.as_slice(), i);
        out.push(c);
        proof {
            assert(s@.take(i as int + 1) =~= s@.take(i as int).push(s@[i as int]));
            assert(out@ =~= old(out)@ + s@.take(i as int + 1));
        }
        i = i + 1;
    }
    proof {
        assert(s@.take(s@.len() as int) =~= s@);
    }
}

/// Writes the rendering of a scalar value.
fn write_scalar_value(v: &Value<'_>, out: &mut Vec<char>)
    requires
        is_scalar(*v),
    ensures
        final(out)@ == old(out)@ + render_model(value_model(*v)),
{
    match v {
        Value::Bool(b) => {
            if *b {
                out.push('t');
                out.push('r');
                out.push('u');
                out.push('e');
            } else {
                out.push('f');
                out.push('a');
                out.push('l');
                out.push('s');
                out.push('e');
            }
            proof {
                assert(out@ =~= old(out)@ + render_model(value_model(*v)));
            }
        },
        Value::Char(c) => {
            out.push('\'');
            let cc = crate::strings::char_copy(c);
            write_char_esc(cc, '\'', out);
            out.push('\'');
            proof {
                assert(out@ =~= old(out)@ + render_model(value_model(*v)));
            }
        },
        Value::I8(n) => {
            write_signed(*n as i128, out);
        },
        Value::I16(n) => {
            write_signed(*n as i128, out);
        },
        Value::I32(n) => {
            write_signed(*n as i128, out);
        },
        Value::I64(n) => {
            write_signed(*n as i128, out);
        },
        Value::I128(n) => {
            write_signed(*n, out);
        },
        Value::Isize(n) => {
            write_signed(*n as i128, out);
        },
        Value::String(s) => {
            out.push('"');
            write_str_esc(s, '"', out);
            out.push('"');
            proof {
                assert(out@ =~= old(out)@ + render_model(value_model(*v)));
            }
        },
        Value::U8(n) => {
            write_unsigned(*n as u128, out);
        },
        Value::U16(n) => {
            write_unsigned(*n as u128, out);
        },
        Value::U32(n) => {
            write_unsigned(*n as u128, out);
        },
        Value::U64(n) => {
            write_unsigned(*n as u128, out);
        },
        Value::U128(n) => {
            write_unsigned(*n, out);
        },
        Value::Usize(n) => {
            write_unsigned(*n as u128, out);
        },
        Value::Error(s) => {
            write_str_raw(s, out);
        },
        Value::Renderable(s) => {
            write_str_raw(s, out);
        },
        Value::Unit => {
            out.push('(');
            out.push(')');
            proof {
                assert(out@ =~= old(out)@ + render_model(value_model(*v)));
            }
        },
        Value::Listable(_) => {
            proof {
                assert(false);
            }
        },
        Value::Mappable(_) => {
            proof {
                assert(false);
            }
        },
        Value::Structable(_) => {
            proof {
                assert(false);
            }
        },
        Value::Enumerable(_) => {
            proof {
                assert(false);
            }
        },
        Value::Tuplable(_) => {
            proof {
                assert(false);
            }
        },
    }
}

/// Returns `true` if every named batch in the run binds no fields.
#[verifier::loop_isolation(false)]
fn named_all_empty(bs: &Vec<NamedValues<'_>>) -> (r: bool)
    ensures
        r == all_batches_empty(named_batches_model(bs@)),
{
    proof {
        lemma_named_batches_model(bs@);
    }
    let items = bs.as_slice();
    let mut i: usize = 0;
    while i < items.len()
        invariant
            items@ == bs@,
            i <= bs@.len(),
            forall|j: int| 0 <= j < i ==> #[trigger] named_batches_model(bs@)[j].len() == 0,
        decreases bs@.len() - i,
    {
        let nv = vstd::slice::slice_index_get(items, i);
        proof {
            lemma_pairs_model(nv.fields@, nv.values@);
        }
        if nv.fields.len() > 0 && nv.values.len() > 0 {
            proof {
                assert(named_batches_model(bs@)[i as int].len() > 0);
            }
            return false;
        }
        i = i + 1;
    }
    true
}

/// Returns `true` if every unnamed batch in the run holds no values.
#[verifier::loop_isolation(false)]
fn unnamed_all_empty(bs: &Vec<Vec<Value<'_>>>) -> (r: bool)
    ensures
        r == all_batches_empty(unnamed_batches_model(bs@)),
{
    proof {
        lemma_unnamed_batches_model(bs@);
    }
    let items = bs.as_slice();
    let mut i: usize = 0;
    while i < items.len()
        invariant
            items@ == bs@,
            i <= bs@.len(),
            forall|j: int| 0 <= j < i ==> #[trigger] unnamed_batches_model(bs@)[j].len() == 0,
        decreases bs@.len() - i,
    {
        let b = vstd::slice::slice_index_get(items, i);
        proof {
            lemma_values_model(b@);
        }
        if b.len() > 0 {
            proof {
                assert(unnamed_batches_model(bs@)[i as int].len() > 0);
            }
            return false;
        }
        i = i + 1;
    }
    true
}

/// Returns `true` if the batches hold exactly one value in total.
#[verifier::loop_isolation(false)]
fn batches_count_is_one(bs: &Vec<Vec<Value<'_>>>) -> (r: bool)
    ensures
        r == (batches_item_count(unnamed_batches_model(bs@)) == 1),
{
    let items = bs.as_slice();
    let mut i: usize = 0;
    let mut cnt: usize = 0;
    proof {
        assert(unnamed_batches_model(bs@).take(0) =~= Seq::<Seq<Model>>::empty());
    }
    while i < items.len()
        invariant
            items@ == bs@,
            i <= bs@.len(),
            cnt == vstd::math::min(
                batches_item_count(unnamed_batches_model(bs@).take(i as int)) as int,
                2,
            ),
        decreases bs@.len() - i,
    {
        let b = vstd::slice::slice_index_get(items, i);
        proof {
            lemma_values_model(b@);
            lemma_unnamed_batches_model(bs@);
            assert(unnamed_batches_model(bs@).take(i as int + 1) =~= unnamed_batches_model(
                bs@,
            ).take(i as int).push(unnamed_batches_model(bs@)[i as int]));
            lemma_batches_count_push(
                unnamed_batches_model(bs@).take(i as int),
                unnamed_batches_model(bs@)[i as int],
            );
        }
        let l = b.len();
        let add: usize = if l > 2 {
            2
        } else {
            l
        };
        cnt = cnt + add;
        if cnt > 2 {
            cnt = 2;
        }
        i = i + 1;
    }
    proof {
        lemma_unnamed_batches_model(bs@);
        assert(unnamed_batches_model(bs@).take(bs@.len() as int) =~= unnamed_batches_model(bs@));
    }
    cnt == 1
}

/// Writes one named batch's pairs. `first` says whether nothing has been
/// emitted yet inside the enclosing braces.
#[verifier::loop_isolation(false)]
fn render_pairs_into(nv: &NamedValues<'_>, first: bool, out: &mut Vec<char>)
    ensures
        final(out)@ == old(out)@ + render_pairs_seq(named_values_model(*nv), first),
    decreases *nv,
{
    let ghost pm = named_values_model(*nv);
    proof {
        lemma_pairs_model(nv.fields@, nv.values@);
        assert(render_pairs_seq(pm.take(0), first) =~= Seq::<char>::empty());
    }
    let fl = nv.fields.len();
    let vl = nv.values.len();
    let k = if fl < vl {
        fl
    } else {
        vl
    };
    let mut j: usize = 0;
    while j < k
        invariant
            k == pm.len(),
            j <= k,
            out@ == old(out)@ + render_pairs_seq(pm.take(j as int), first),
        decreases k - j,
    {
        if !(first && j == 0) {
            out.push(',');
            out.push(' ');
        }
        let field = nv.fields[j];
        write_str_raw(field.name(), out);
        out.push(':');
        out.push(' ');
        proof {
            assert(decreases_to!(*nv => nv.values@[j as int])) by {
                assert(decreases_to!(*nv => nv.values));
                assert(decreases_to!(nv.values => nv.values@));
                assert(decreases_to!(nv.values@ => nv.values@[j as int]));
            }
        }
        render_value_into(&nv.values[j], out);
        proof {
            assert(pm.take(j as int + 1) =~= pm.take(j as int).push(pm[j as int]));
            lemma_pairs_push(pm.take(j as int), pm[j as int], first);
            assert(out@ =~= old(out)@ + render_pairs_seq(pm.take(j as int + 1), first));
        }
        j = j + 1;
    }
    proof {
        assert(pm.take(pm.len() as int) =~= pm);
    }
}

/// Writes a run of named batches as a single `, `-separated field list.
#[verifier::loop_isolation(false)]
fn render_named_batches_into(bs: &Vec<NamedValues<'_>>, out: &mut Vec<char>)
    ensures
        final(out)@ == old(out)@ + render_pair_batches(named_batches_model(bs@), true),
    decreases bs@,
{
    let ghost bm = named_batches_model(bs@);
    proof {
        lemma_named_batches_model(bs@);
        assert(render_pair_batches(bm.take(0), true) =~= Seq::<char>::empty());
        assert(all_batches_empty(bm.take(0)));
    }
    let items = bs.as_slice();
    let mut first: bool = true;
    let mut i: usize = 0;
    while i < items.len()
        invariant
            items@ == bs@,
            i <= bs@.len(),
            bm == named_batches_model(bs@),
            out@ == old(out)@ + render_pair_batches(bm.take(i as int), true),
            first == all_batches_empty(bm.take(i as int)),
        decreases bs@.len() - i,
    {
        let nv = vstd::slice::slice_index_get(items, i);
        proof {
            assert(decreases_to!(bs@ => bs@[i as int]));
        }
        render_pairs_into(nv, first, out);
        let fl = nv.fields.len();
        let vl = nv.values.len();
        proof {
            lemma_pairs_model(nv.fields@, nv.values@);
            assert(bm.take(i as int + 1) =~= bm.take(i as int).push(bm[i as int]));
            lemma_pair_batches_push(bm.take(i as int), bm[i as int], true);
            assert(out@ =~= old(out)@ + render_pair_batches(bm.take(i as int + 1), true));
        }
        first = first && (fl == 0 || vl == 0);
        i = i + 1;
    }
    proof {
        assert(bm.take(bm.len() as int) =~= bm);
    }
}

/// Writes one unnamed batch's values. `first` says whether nothing has been
/// emitted yet inside the enclosing brackets.
#[verifier::loop_isolation(false)]
fn render_values_into(vs: &Vec<Value<'_>>, first: bool, out: &mut Vec<char>)
    ensures
        final(out)@ == old(out)@ + render_items_seq(values_model(vs@), first),
    decreases vs@,
{
    let ghost ms = values_model(vs@);
    proof {
        lemma_values_model(vs@);
        assert(render_items_seq(ms.take(0), first) =~= Seq::<char>::empty());
    }
    let items = vs.as_slice();
    let mut j: usize = 0;
    while j < items.len()
        invariant
            items@ == vs@,
            j <= vs@.len(),
            ms == values_model(vs@),
            out@ == old(out)@ + render_items_seq(ms.take(j as int), first),
        decreases vs@.len() - j,
    {
        if !(first && j == 0) {
            out.push(',');
            out.push(' ');
        }
        let item = vstd::slice::slice_index_get(items, j);
        proof {
            assert(decreases_to!(vs@ => vs@[j as int]));
        }
        render_value_into(item, out);
        proof {
            assert(ms.take(j as int + 1) =~= ms.take(j as int).push(ms[j as int]));
            lemma_items_push(ms.take(j as int), ms[j as int], first);
            assert(out@ =~= old(out)@ + render_items_seq(ms.take(j as int + 1), first));
        }
        j = j + 1;
    }
    proof {
        assert(ms.take(ms.len() as int) =~= ms);
    }
}

/// Writes a run of unnamed batches as a single `, `-separated list.
#[verifier::loop_isolation(false)]
fn render_unnamed_batches_into(bs: &Vec<Vec<Value<'_>>>, out: &mut Vec<char>)
    ensures
        final(out)@ == old(out)@ + render_item_batches(unnamed_batches_model(bs@), true),
    decreases bs@,
{
    let ghost bm = unnamed_batches_model(bs@);
    proof {
        lemma_unnamed_batches_model(bs@);
        assert(render_item_batches(bm.take(0), true) =~= Seq::<char>::empty());
        assert(all_batches_empty(bm.take(0)));
    }
    let items = bs.as_slice();
    let mut first: bool = true;
    let mut i: usize = 0;
    while i < items.len()
        invariant
            items@ == bs@,
            i <= bs@.len(),
            bm == unnamed_batches_model(bs@),
            out@ == old(out)@ + render_item_batches(bm.take(i as int), true),
            first == all_batches_empty(bm.take(i as int)),
        decreases bs@.len() - i,
    {
        let b = vstd::slice::slice_index_get(items, i);
        proof {
            assert(decreases_to!(bs@ => bs@[i as int]));
            assert(decreases_to!(bs@[i as int] => bs@[i as int]@));
        }
        render_values_into(b, first, out);
        proof {
            lemma_values_model(b@);
            assert(bm.take(i as int + 1) =~= bm.take(i as int).push(bm[i as int]));
            lemma_item_batches_push(bm.take(i as int), bm[i as int], true);
            assert(out@ =~= old(out)@ + render_item_batches(bm.take(i as int + 1), true));
        }
        first = first && b.len() == 0;
        i = i + 1;
    }
    proof {
        assert(bm.take(bm.len() as int) =~= bm);
    }
}

/// Writes what a field list adds after the producer's name.
fn write_fields_suffix(fv: &FieldValues<'_>, out: &mut Vec<char>)
    ensures
        final(out)@ == old(out)@ + fields_suffix(crate::model::field_values_model(*fv)),
    decreases *fv,
{
    match fv {
        FieldValues::Named(bs) => {
            if named_all_empty(bs) {
                proof {
                    assert(out@ =~= old(out)@ + fields_suffix(crate::model::field_values_model(
                        *fv,
                    )));
                }
            } else {
                out.push(' ');
                out.push('{');
                out.push(' ');
                proof {
                    assert(decreases_to!(*fv => *bs)) by {
                        assert(decreases_to!(*fv => fv->Named_0));
                    }
                    assert(decreases_to!(*bs => bs@));
                }
                render_named_batches_into(bs, out);
                out.push(' ');
                out.push('}');
                proof {
                    assert(out@ =~= old(out)@ + fields_suffix(crate::model::field_values_model(
                        *fv,
                    )));
                }
            }
        },
        FieldValues::Unnamed(bs) => {
            if unnamed_all_empty(bs) {
                proof {
                    assert(out@ =~= old(out)@ + fields_suffix(crate::model::field_values_model(
                        *fv,
                    )));
                }
            } else {
                out.push('(');
                proof {
                    assert(decreases_to!(*fv => *bs)) by {
                        assert(decreases_to!(*fv => fv->Unnamed_0));
                    }
                    assert(decreases_to!(*bs => bs@));
                }
                render_unnamed_batches_into(bs, out);
                out.push(')');
                proof {
                    assert(out@ =~= old(out)@ + fields_suffix(crate::model::field_values_model(
                        *fv,
                    )));
                }
            }
        },
    }
}

/// Writes the rendering of any value.
#[verifier::loop_isolation(false)]
#[verifier::rlimit(60)]
fn render_value_into(v: &Value<'_>, out: &mut Vec<char>)
    ensures
        final(out)@ == old(out)@ + render_model(value_model(*v)),
    decreases *v,
{
    match v {
        Value::Listable(l) => {
            out.push('[');
            match l {
                ListValue::Slice(s) => {
                    let ghost ms = crate::model::slice_model(*s);
                    proof {
                        assert(render_items_seq(ms.take(0), true) =~= Seq::<char>::empty());
                    }
                    let ghost mid = out@;
                    let n = s.len();
                    let mut i: usize = 0;
                    while i < n
                        invariant
                            n == s.spec_len(),
                            i <= n,
                            ms == crate::model::slice_model(*s),
                            out@ == mid + render_items_seq(ms.take(i as int), true),
                        decreases n - i,
                    {
                        if i > 0 {
                            out.push(',');
                            out.push(' ');
                        }
                        let elem = s.get(i);
                        write_scalar_value(&elem, out);
                        proof {
                            assert(ms.take(i as int + 1) =~= ms.take(i as int).push(
                                ms[i as int],
                            ));
                            lemma_items_push(ms.take(i as int), ms[i as int], true);
                            assert(out@ =~= mid + render_items_seq(ms.take(i as int + 1), true));
                        }
                        i = i + 1;
                    }
                    proof {
                        assert(ms.take(ms.len() as int) =~= ms);
                    }
                },
                ListValue::Values(vs) => {
                    proof {
                        assert(decreases_to!(*v => vs@)) by {
                            assert(decreases_to!(*v => v->Listable_0));
                            assert(decreases_to!(v->Listable_0 => v->Listable_0->Values_0));
                            assert(decreases_to!(
                                v->Listable_0->Values_0 => v->Listable_0->Values_0@
                            ));
                        }
                    }
                    render_values_into(vs, true, out);
                },
            }
            out.push(']');
            proof {
                assert(out@ =~= old(out)@ + render_model(value_model(*v)));
            }
        },
        Value::Mappable(m) => {
            out.push('{');
            let ghost es = crate::model::map_model(*m);
            proof {
                crate::model::lemma_entries_model(m.entries@);
                assert(render_entries_seq(es.take(0), true) =~= Seq::<char>::empty());
            }
            let ghost mid = out@;
            let items = m.entries.as_slice();
            let mut i: usize = 0;
            while i < items.len()
                invariant
                    items@ == m.entries@,
                    i <= m.entries@.len(),
                    es == crate::model::map_model(*m),
                    es.len() == m.entries@.len(),
                    out@ == mid + render_entries_seq(es.take(i as int), true),
                decreases m.entries@.len() - i,
            {
                if i > 0 {
                    out.push(',');
                    out.push(' ');
                }
                let entry = vstd::slice::slice_index_get(items, i);
                proof {
                    assert(decreases_to!(*v => m.entries@[i as int].0)) by {
                        assert(decreases_to!(*v => v->Mappable_0));
                        assert(decreases_to!(v->Mappable_0 => v->Mappable_0.entries));
                        assert(decreases_to!(v->Mappable_0.entries => v->Mappable_0.entries@));
                        assert(decreases_to!(
                            v->Mappable_0.entries@ => v->Mappable_0.entries@[i as int]
                        ));
                        assert(decreases_to!(
                            v->Mappable_0.entries@[i as int] => v->Mappable_0.entries@[i as int].0
                        ));
                    }
                    assert(decreases_to!(*v => m.entries@[i as int].1)) by {
                        assert(decreases_to!(
                            v->Mappable_0.entries@[i as int] => v->Mappable_0.entries@[i as int].1
                        ));
                    }
                }
                render_value_into(&entry.0, out);
                out.push(':');
                out.push(' ');
                render_value_into(&entry.1, out);
                proof {
                    assert(es.take(i as int + 1) =~= es.take(i as int).push(es[i as int]));
                    lemma_entries_push(es.take(i as int), es[i as int], true);
                    assert(out@ =~= mid + render_entries_seq(es.take(i as int + 1), true));
                }
                i = i + 1;
            }
            proof {
                assert(es.take(es.len() as int) =~= es);
            }
            out.push('}');
            proof {
                assert(out@ =~= old(out)@ + render_model(value_model(*v)));
            }
        },
        Value::Structable(s) => {
            write_str_raw(s.definition().name(), out);
            proof {
                assert(decreases_to!(*v => s.fields)) by {
                    assert(decreases_to!(*v => v->Structable_0));
                    assert(decreases_to!(v->Structable_0 => v->Structable_0.fields));
                }
            }
            write_fields_suffix(&s.fields, out);
            proof {
                assert(out@ =~= old(out)@ + render_model(value_model(*v)));
            }
        },
        Value::Enumerable(e) => {
            write_str_raw(e.definition().name(), out);
            out.push(':');
            out.push(':');
            write_str_raw(e.variant().name(), out);
            proof {
                assert(decreases_to!(*v => e.fields)) by {
                    assert(decreases_to!(*v => v->Enumerable_0));
                    assert(decreases_to!(v->Enumerable_0 => v->Enumerable_0.fields));
                }
            }
            write_fields_suffix(&e.fields, out);
            proof {
                assert(out@ =~= old(out)@ + render_model(value_model(*v)));
            }
        },
        Value::Tuplable(t) => {
            out.push('(');
            let one = batches_count_is_one(&t.fields);
            proof {
                assert(decreases_to!(*v => t.fields@)) by {
                    assert(decreases_to!(*v => v->Tuplable_0));
                    assert(decreases_to!(v->Tuplable_0 => v->Tuplable_0.fields));
                    assert(decreases_to!(v->Tuplable_0.fields => v->Tuplable_0.fields@));
                }
            }
            render_unnamed_batches_into(&t.fields, out);
            if one {
                out.push(',');
            }
            out.push(')');
            proof {
                assert(out@ =~= old(out)@ + render_model(value_model(*v)));
            }
        },
        _ => {
            write_scalar_value(v, out);
        },
    }
}

/// Renders a value to human-readable text: scalars as their literal forms,
/// strings quoted and escaped, lists as `[...]`, maps as `{key: value}`,
/// named fields as `Name { field: value }`, unnamed fields as
/// `Name(value)`, and enum variants as `Enum::Variant...`.
pub fn render(v: &Value<'_>) -> (r: String)
    ensures
        r@ == render_model(value_model(*v)),
{
    let mut out: Vec<char> = Vec::new();
    render_value_into(v, &mut out);
    crate::strings::chars_to_string(&out)
}

} // verus!
