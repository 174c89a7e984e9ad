//! Rendering wire values to JSON text: the canonical compact form, with
//! fields in writing order, strings escaped, and no added whitespace.

use vstd::prelude::*;
use vstd::string::StrSliceExecFns;
use vstd::string::StringExecFns;
use crate::color::{append_hex_digit, hex_digit_char};
use crate::json::{jview, jview_pairs, jview_seq, lemma_jview_pairs, lemma_jview_seq, Json, JsonV};

verus! {

/// The decimal digits of an unsigned integer.
pub open spec fn dec_str(n: u64) -> Seq<char>
    decreases n,
{
    if n < 10 {
        seq![hex_digit_char(n as int)]
    } else {
        dec_str(n / 10) + seq![hex_digit_char(n as int % 10)]
    }
}

/// The escape of one string character: quote and backslash escaped,
/// common control characters by letter, other control characters in
/// `\u00..` form, everything else as itself.
pub open spec fn escape_char(c: char) -> Seq<char> {
    if c == '"' {
        seq!['\\', '"']
    } else if c == '\\' {
        seq!['\\', '\\']
    } else if c == '\n' {
        seq!['\\', 'n']
    } else if c == '\r' {
        seq!['\\', 'r']
    } else if c == '\t' {
        seq!['\\', 't']
    } else if (c as int) < 0x20 {
        seq!['\\', 'u', '0', '0', hex_digit_char(c as int / 16), hex_digit_char(c as int % 16)]
    } else {
        seq![c]
    }
}

pub open spec fn escape_str(s: Seq<char>) -> Seq<char>
    decreases s.len(),
{
    if s.len() == 0 {
        Seq::empty()
    } else {
        escape_char(s[0]) + escape_str(s.drop_first())
    }
}

/// A rendered string literal: quotes around the escaped characters.
pub open spec fn quoted(s: Seq<char>) -> Seq<char> {
    seq!['"'] + escape_str(s) + seq!['"']
}

/// The JSON text of a wire value.
pub open spec fn render_json(j: JsonV) -> Seq<char>
    decreases j, 1int,
{
    match j {
        JsonV::Null => "null"@,
        JsonV::Bool(b) => if b {
            "true"@
        } else {
            "false"@
        },
        JsonV::UInt(n) => dec_str(n),
        JsonV::Str(s) => quoted(s),
        JsonV::Arr(elems) => seq!['['] + render_elems(elems) + seq![']'],
        JsonV::Obj(ps) => seq!['{'] + render_fields(ps) + seq!['}'],
    }
}

pub open spec fn render_elems(s: Seq<JsonV>) -> Seq<char>
    decreases s, 3int,
{
    if s.len() == 0 {
        Seq::empty()
    } else {
        render_json(s[0]) + render_elems_rest(s.drop_first())
    }
}

pub open spec fn render_elems_rest(s: Seq<JsonV>) -> Seq<char>
    decreases s, 2int,
{
    if s.len() == 0 {
        Seq::empty()
    } else {
        seq![','] + render_json(s[0]) + render_elems_rest(s.drop_first())
    }
}

pub open spec fn render_field(p: (Seq<char>, JsonV)) -> Seq<char>
    decreases p, 2int,
{
    quoted(p.0) + seq![':'] + render_json(p.1)
}

pub open spec fn render_fields(s: Seq<(Seq<char>, JsonV)>) -> Seq<char>
    decreases s, 3int,
{
    if s.len() == 0 {
        Seq::empty()
    } else {
        render_field(s[0]) + render_fields_rest(s.drop_first())
    }
}

pub open spec fn render_fields_rest(s: Seq<(Seq<char>, JsonV)>) -> Seq<char>
    decreases s, 2int,
{
    if s.len() == 0 {
        Seq::empty()
    } else {
        seq![','] + render_field(s[0]) + render_fields_rest(s.drop_first())
    }
}

/// Appending one element to a rendered list adds a comma before it
/// unless the list was empty.
proof fn lemma_render_elems_push(s: Seq<JsonV>, x: JsonV)
    ensures
        render_elems(s.push(x)) == (if s.len() == 0 {
            render_json(x)
        } else {
            render_elems(s) + seq![','] + render_json(x)
        }),
    decreases s.len(),
{
    let sp = s.push(x);
    if s.len() == 0 {
        assert(sp[0] == x);
        assert(sp.drop_first() =~= Seq::<JsonV>::empty());
        assert(render_elems_rest(sp.drop_first()) == Seq::<char>::empty());
        assert(render_elems(sp) =~= render_json(x));
    } else {
        lemma_render_elems_rest_push(s.drop_first(), x);
        assert(sp.drop_first() =~= s.drop_first().push(x));
        assert(sp[0] == s[0]);
        assert(render_elems(sp) =~= render_elems(s) + seq![','] + render_json(x));
    }
}

proof fn lemma_render_elems_rest_push(s: Seq<JsonV>, x: JsonV)
    ensures
        render_elems_rest(s.push(x)) == render_elems_rest(s) + seq![','] + render_json(x),
    decreases s.len(),
{
    let sp = s.push(x);
    reveal_with_fuel(render_elems_rest, 3);
    if s.len() == 0 {
        assert(sp[0] == x);
        assert(sp.drop_first() =~= Seq::<JsonV>::empty());
        assert(render_elems_rest(sp) =~= render_elems_rest(s) + seq![','] + render_json(x));
    } else {
        lemma_render_elems_rest_push(s.drop_first(), x);
        assert(sp.drop_first() =~= s.drop_first().push(x));
        assert(sp[0] == s[0]);
        assert(render_elems_rest(sp) == seq![','] + render_json(s[0]) + render_elems_rest(
            sp.drop_first(),
        ));
        assert(render_elems_rest(sp) =~= render_elems_rest(s) + seq![','] + render_json(x));
    }
}

proof fn lemma_render_fields_push(s: Seq<(Seq<char>, JsonV)>, x: (Seq<char>, JsonV))
    ensures
        render_fields(s.push(x)) == (if s.len() == 0 {
            render_field(x)
        } else {
            render_fields(s) + seq![','] + render_field(x)
        }),
    decreases s.len(),
{
    let sp = s.push(x);
    if s.len() == 0 {
        assert(sp[0] == x);
        assert(sp.drop_first() =~= Seq::<(Seq<char>, JsonV)>::empty());
        assert(render_fields(sp) =~= render_field(x));
    } else {
        lemma_render_fields_rest_push(s.drop_first(), x);
        assert(sp.drop_first() =~= s.drop_first().push(x));
        assert(sp[0] == s[0]);
        assert(render_fields(sp) =~= render_fields(s) + seq![','] + render_field(x));
    }
}

proof fn lemma_render_fields_rest_push(s: Seq<(Seq<char>, JsonV)>, x: (Seq<char>, JsonV))
    ensures
        render_fields_rest(s.push(x)) == render_fields_rest(s) + seq![','] + render_field(x),
    decreases s.len(),
{
    let sp = s.push(x);
    reveal_with_fuel(render_fields_rest, 3);
    if s.len() == 0 {
        assert(sp[0] == x);
        assert(sp.drop_first() =~= Seq::<(Seq<char>, JsonV)>::empty());
        assert(render_fields_rest(sp) =~= render_fields_rest(s) + seq![','] + render_field(x));
    } else {
        lemma_render_fields_rest_push(s.drop_first(), x);
        assert(sp.drop_first() =~= s.drop_first().push(x));
        assert(sp[0] == s[0]);
        assert(render_fields_rest(sp) == seq![','] + render_field(s[0]) + render_fields_rest(
            sp.drop_first(),
        ));
        assert(render_fields_rest(sp) =~= render_fields_rest(s) + seq![','] + render_field(x));
    }
}

/// Appends the decimal digits of `n`.
fn write_u64(n: u64, out: &mut String)
    ensures
        final(out)@ == old(out)@ + dec_str(n),
    decreases n,
{
    if n < 10 {
        append_hex_digit(out, n as u8);
    } else {
        write_u64(n / 10, out);
        append_hex_digit(out, (n % 10) as u8);
        proof {
            assert(old(out)@ + dec_str(n / 10) + seq![hex_digit_char(n as int % 10)] =~= old(
                out,
            )@ + dec_str(n));
        }
    }
}

/// Appends one string character in escaped form. The character is
/// handed over as the one-character slice holding it.
fn write_escaped_char(s: &str, i: usize, out: &mut String)
    requires
        i < s@.len(),
        s@.len() <= usize::MAX,
    ensures
        final(out)@ == old(out)@ + escape_char(s@[i as int]),
{
    let c = s.get_char(i);
    if c == '"' {
        out.append("\\\"");
        proof {
            reveal_strlit("\\\"");
            assert("\\\""@ =~= escape_char('"'));
        }
    } else if c == '\\' {
        out.append("\\\\");
        proof {
            reveal_strlit("\\\\");
            assert("\\\\"@ =~= escape_char('\\'));
        }
    } else if c == '\n' {
        out.append("\\n");
        proof {
            reveal_strlit("\\n");
            assert("\\n"@ =~= escape_char('\n'));
        }
    } else if c == '\r' {
        out.append("\\r");
        proof {
            reveal_strlit("\\r");
            assert("\\r"@ =~= escape_char('\r'));
        }
    } else if c == '\t' {
        out.append("\\t");
        proof {
            reveal_strlit("\\t");
            assert("\\t"@ =~= escape_char('\t'));
        }
    } else if (c as u32) < 0x20 {
        out.append("\\u00");
        let ghost mid = out@;
        append_hex_digit(out, (c as u32 / 16) as u8);
        append_hex_digit(out, (c as u32 % 16) as u8);
        proof {
            reveal_strlit("\\u00");
            assert("\\u00"@ =~= seq!['\\', 'u', '0', '0']);
            assert(final(out)@ =~= old(out)@ + escape_char(c));
        }
    } else {
        let piece = s.substring_char(i, i + 1);
        out.append(piece);
        proof {
            assert(piece@ =~= seq![s@[i as int]]);
        }
    }
}

/// Appends the escaped form of a whole string.
fn write_escaped(s: &str, out: &mut String)
    ensures
        final(out)@ == old(out)@ + escape_str(s@),
{
    let len = s.unicode_len();
    let mut i: usize = 0;
    while i < len
        invariant
            i <= len,
            len == s@.len(),
            out@ == old(out)@ + escape_str(s@.subrange(0, i as int)),
        decreases len - i,
    {
        write_escaped_char(s, i, out);
        proof {
            lemma_escape_str_push(s@.subrange(0, i as int), s@[i as int]);
            assert(s@.subrange(0, i as int).push(s@[i as int]) =~= s@.subrange(0, i as int + 1));
        }
        i = i + 1;
    }
    proof {
        assert(s@.subrange(0, len as int) =~= s@);
    }
}

proof fn lemma_escape_str_push(s: Seq<char>, x: char)
    ensures
        escape_str(s.push(x)) == escape_str(s) + escape_char(x),
    decreases s.len(),
{
    let sp = s.push(x);
    reveal_with_fuel(escape_str, 3);
    if s.len() == 0 {
        assert(sp[0] == x);
        assert(sp.drop_first() =~= Seq::<char>::empty());
        assert(escape_str(sp) =~= escape_str(s) + escape_char(x));
    } else {
        lemma_escape_str_push(s.drop_first(), x);
        assert(sp.drop_first() =~= s.drop_first().push(x));
        assert(sp[0] == s[0]);
        assert(escape_str(sp) == escape_char(s[0]) + escape_str(sp.drop_first()));
        assert(escape_str(sp) =~= escape_str(s) + escape_char(x));
    }
}

/// Appends a quoted, escaped string literal.
fn write_quoted(s: &str, out: &mut String)
    ensures
        final(out)@ == old(out)@ + quoted(s@),
{
    out.append("\"");
    proof {
        reveal_strlit("\"");
        assert("\""@ =~= seq!['"']);
    }
    write_escaped(s, out);
    out.append("\"");
    proof {
        assert(final(out)@ =~= old(out)@ + quoted(s@));
    }
}

/// Appends the JSON text of a wire value.
fn write_json(j: &Json, out: &mut String)
    ensures
        final(out)@ == old(out)@ + render_json(jview(*j)),
    decreases *j,
{
    match j {
        Json::Null => {
            out.append("null");
        },
        Json::Bool(b) => {
            if *b {
                out.append("true");
            } else {
                out.append("false");
            }
        },
        Json::UInt(n) => {
            write_u64(*n, out);
        },
        Json::Str(s) => {
            write_quoted(s.as_str(), out);
        },
        Json::Arr(elems) => {
            out.append("[");
            proof {
                reveal_strlit("[");
                assert("["@ =~= seq!['[']);
                lemma_jview_seq(elems@);
            }
            let ghost base = out@;
            let n = elems.len();
            let mut i: usize = 0;
            while i < n
                invariant
                    i <= n,
                    n == elems@.len(),
                    jview_seq(elems@).len() == n,
                    forall|k: int| 0 <= k < n ==> jview_seq(elems@)[k] == jview(
                        #[trigger] elems@[k],
                    ),
                    out@ == base + render_elems(jview_seq(elems@).subrange(0, i as int)),
                    *j == Json::Arr(*elems),
                    base == old(out)@ + seq!['['],
                decreases n - i,
            {
                if i > 0 {
                    out.append(",");
                    proof {
                        reveal_strlit(",");
                        assert(","@ =~= seq![',']);
                    }
                }
                proof {
                    assert(decreases_to!(*j => elems@[i as int])) by {
                        assert(decreases_to!(*j => j->Arr_0));
                        assert(j->Arr_0 == *elems);
                        assert(decreases_to!(*elems => elems@));
                        assert(decreases_to!(elems@ => elems@[i as int]));
                    }
                }
                write_json(&elems[i], out);
                proof {
                    let pre = jview_seq(elems@).subrange(0, i as int);
                    lemma_render_elems_push(pre, jview(elems@[i as int]));
                    assert(pre.push(jview(elems@[i as int])) =~= jview_seq(elems@).subrange(
                        0,
                        i as int + 1,
                    ));
                }
                i = i + 1;
            }
            out.append("]");
            proof {
                reveal_strlit("]");
                assert("]"@ =~= seq![']']);
                assert(jview_seq(elems@).subrange(0, n as int) =~= jview_seq(elems@));
                assert(final(out)@ =~= old(out)@ + render_json(jview(*j)));
            }
        },
        Json::Obj(pairs) => {
            out.append("{");
            proof {
                reveal_strlit("{");
                assert("{"@ =~= seq!['{']);
                lemma_jview_pairs(pairs@);
            }
            let ghost base = out@;
            let n = pairs.len();
            let mut i: usize = 0;
            while i < n
                invariant
                    i <= n,
                    n == pairs@.len(),
                    jview_pairs(pairs@).len() == n,
                    forall|k: int| 0 <= k < n ==> jview_pairs(pairs@)[k] == ((
                    #[trigger] pairs@[k]).0@, jview(pairs@[k].1)),
                    out@ == base + render_fields(jview_pairs(pairs@).subrange(0, i as int)),
                    *j == Json::Obj(*pairs),
                    base == old(out)@ + seq!['{'],
                decreases n - i,
            {
                if i > 0 {
                    out.append(",");
                    proof {
                        reveal_strlit(",");
                        assert(","@ =~= seq![',']);
                    }
                }
                write_quoted(pairs[i].0.as_str(), out);
                out.append(":");
                proof {
                    reveal_strlit(":");
                    assert(":"@ =~= seq![':']);
                    assert(decreases_to!(*j => pairs@[i as int].1)) by {
                        assert(decreases_to!(*j => j->Obj_0));
                        assert(j->Obj_0 == *pairs);
                        assert(decreases_to!(*pairs => pairs@));
                        assert(decreases_to!(pairs@ => pairs@[i as int]));
                        assert(decreases_to!(pairs@[i as int] => pairs@[i as int].1));
                    }
                }
                write_json(&pairs[i].1, out);
                proof {
                    let pre = jview_pairs(pairs@).subrange(0, i as int);
                    let x = jview_pairs(pairs@)[i as int];
                    lemma_render_fields_push(pre, x);
                    assert(pre.push(x) =~= jview_pairs(pairs@).subrange(0, i as int + 1));
                    assert(out@ =~= base + render_fields(jview_pairs(pairs@).subrange(
                        0,
                        i as int + 1,
                    )));
                }
                i = i + 1;
            }
            out.append("}");
            proof {
                reveal_strlit("}");
                assert("}"@ =~= seq!['}']);
                assert(jview_pairs(pairs@).subrange(0, n as int) =~= jview_pairs(pairs@));
                assert(final(out)@ =~= old(out)@ + render_json(jview(*j)));
            }
        },
    }
    proof {
        reveal_strlit("null");
        reveal_strlit("true");
        reveal_strlit("false");
    }
}

/// The JSON text of a wire value, as a fresh string.
pub fn render_to_string(j: &Json) -> (r: String)
    ensures
        r@ == render_json(j@),
{
    let mut out = String::new();
    write_json(j, &mut out);
    out
}

} // verus!
