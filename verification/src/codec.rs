//! The wire mapping of component trees: each component is one flat object
//! holding its variant's discriminating field, the variant's own fields,
//! and the flattened style envelope, with unset fields left out. Reading
//! back is untagged: the variants are tried in a fixed priority order —
//! text, translatable, key bind, score, selector, then the bare style
//! envelope — and the first that fits wins.

use vstd::prelude::*;
use crate::color::{color_wire, spec_color_from_wire, color_to_string, color_from_str, Color, ColorView};
use crate::component::{
    base_view, click_view, comp_seq_view, cview, hover_view, lemma_comp_seq_view,
    lemma_cow_smaller, score_name_view, score_view, text_view,
    BaseComponent, BaseView, ClickEvent, ClickView, CompView, Component, CowList, HoverEvent,
    HoverText, HoverTextView, HoverView, KeyBindComponent, KeyBindView, Score, ScoreCompView,
    ScoreComponent, ScoreName, ScoreNameView, ScoreView, SelectorComponent, SelectorView,
    TextComponent, TextView, TranslatableComponent, TranslatableView,
};
use crate::identifier::{IdView, Identifier};
use crate::json::{
    jview, jview_pairs, jview_seq, lemma_jview_pairs, lemma_jview_pairs_last, lemma_jview_seq,
    lemma_lookup_append, lemma_lookup_single, lemma_lookup_smaller, obj_get, obj_lookup, Json,
    JsonV,
};
use crate::roundtrip::{base_wf, comp_wf, hover_wf, lemma_component_round_trip};
use crate::text::{count_char, first_idx};

verus! {

// ---------------------------------------------------------------------
// Writing: component values to wire values.
// ---------------------------------------------------------------------

/// The nibble of `x` at digit position `i`, most significant first.
pub open spec fn uuid_nibble(x: u128, i: int) -> int {
    ((x >> (((31 - i) * 4) as u128)) & 0xf) as int
}

/// The 32 hex digits of a 128-bit value, most significant first.
pub open spec fn uuid_digits(x: u128) -> Seq<char> {
    Seq::new(32, |i: int| crate::color::hex_digit_char(uuid_nibble(x, i)))
}

/// The hyphenated lowercase form of a UUID value: the digits in groups
/// of 8, 4, 4, 4 and 12.
pub open spec fn uuid_hyphenated(x: u128) -> Seq<char> {
    uuid_digits(x).subrange(0, 8) + seq!['-'] + uuid_digits(x).subrange(8, 12) + seq!['-']
        + uuid_digits(x).subrange(12, 16) + seq!['-'] + uuid_digits(x).subrange(16, 20) + seq!['-']
        + uuid_digits(x).subrange(20, 32)
}

/// Relies on `uuid::Uuid::from_u128` and its hyphenated `Display` form:
/// the value's sixteen big-endian bytes rendered as 32 lowercase hex
/// digits with dashes after the 8th, 12th, 16th and 20th digit.
#[verifier::external_body]
fn uuid_to_string(x: u128) -> (r: String)
    ensures
        r@ == uuid_hyphenated(x),
{
    uuid::Uuid::from_u128(x).hyphenated().to_string()
}

/// The two fields of an explicitly tagged event object.
pub open spec fn tag_pairs(action: Seq<char>, value: JsonV) -> Seq<(Seq<char>, JsonV)> {
    seq![("action"@, JsonV::Str(action)), ("value"@, value)]
}

/// The wire object of a click event.
pub open spec fn ser_click(e: ClickView) -> JsonV {
    match e {
        ClickView::OpenUrl(s) => JsonV::Obj(tag_pairs("open_url"@, JsonV::Str(s))),
        ClickView::RunCommand(s) => JsonV::Obj(tag_pairs("run_command"@, JsonV::Str(s))),
        ClickView::SuggestCommand(s) => JsonV::Obj(tag_pairs("suggest_command"@, JsonV::Str(s))),
        ClickView::ChangePage(n) => JsonV::Obj(tag_pairs("change_page"@, JsonV::UInt(n as u64))),
        ClickView::CopyToClipboard(s) => JsonV::Obj(
            tag_pairs("copy_to_clipboard"@, JsonV::Str(s)),
        ),
    }
}

/// The wire string of a score holder's name.
pub open spec fn ser_score_name(n: ScoreNameView) -> Seq<char> {
    match n {
        ScoreNameView::Literal(s) => s,
        ScoreNameView::Uuid(x) => uuid_hyphenated(x),
    }
}

/// The wire object of a score: name, objective, and the value unless it
/// is null.
pub open spec fn ser_score(s: ScoreView) -> JsonV {
    JsonV::Obj(
        seq![("name"@, JsonV::Str(ser_score_name(s.name))), ("objective"@, JsonV::Str(s.objective))]
            + (if s.value is Null {
            Seq::<(Seq<char>, JsonV)>::empty()
        } else {
            seq![("value"@, s.value)]
        }),
    )
}

/// The wire object of a hover event.
pub open spec fn ser_hover(h: HoverView) -> JsonV
    decreases h,
{
    match h {
        HoverView::ShowText(HoverTextView::Component(t)) => JsonV::Obj(
            tag_pairs("show_text"@, JsonV::Obj(ser_text_pairs(*t))),
        ),
        HoverView::ShowText(HoverTextView::Plain(s)) => JsonV::Obj(
            tag_pairs("show_text"@, JsonV::Str(s)),
        ),
        HoverView::ShowItem(s) => JsonV::Obj(tag_pairs("show_item"@, JsonV::Str(s))),
        HoverView::ShowEntity(s) => JsonV::Obj(tag_pairs("show_entity"@, JsonV::Str(s))),
    }
}

pub open spec fn opt_bool_pairs(k: Seq<char>, v: Option<bool>) -> Seq<(Seq<char>, JsonV)> {
    match v {
        Some(b) => seq![(k, JsonV::Bool(b))],
        None => Seq::empty(),
    }
}

pub open spec fn opt_str_pairs(k: Seq<char>, v: Option<Seq<char>>) -> Seq<(Seq<char>, JsonV)> {
    match v {
        Some(s) => seq![(k, JsonV::Str(s))],
        None => Seq::empty(),
    }
}

/// The flattened fields of the style envelope, in declaration order,
/// with unset fields and an empty child list left out.
pub open spec fn ser_base_pairs(b: BaseView) -> Seq<(Seq<char>, JsonV)>
    decreases b,
{
    opt_bool_pairs("bold"@, b.bold) + opt_bool_pairs("italic"@, b.italic) + opt_bool_pairs(
        "underlined"@,
        b.underlined,
    ) + opt_bool_pairs("strikethrough"@, b.strikethrough) + opt_bool_pairs(
        "obfuscated"@,
        b.obfuscated,
    ) + (match b.font {
        Some(id) => seq![("font"@, JsonV::Str(id.fulled()))],
        None => Seq::empty(),
    }) + (match b.color {
        Some(c) => seq![("color"@, JsonV::Str(color_wire(c)))],
        None => Seq::empty(),
    }) + opt_str_pairs("insertion"@, b.insertion) + (if b.extra.len() == 0 {
        Seq::<(Seq<char>, JsonV)>::empty()
    } else {
        seq![("extra"@, JsonV::Arr(ser_comp_seq(b.extra)))]
    }) + (match b.click_event {
        Some(e) => seq![("clickEvent"@, ser_click(e))],
        None => Seq::empty(),
    }) + (match b.hover_event {
        Some(h) => seq![("hoverEvent"@, ser_hover(h))],
        None => Seq::empty(),
    })
}

/// The fields of a text component's wire object.
pub open spec fn ser_text_pairs(t: TextView) -> Seq<(Seq<char>, JsonV)>
    decreases t,
{
    seq![("text"@, JsonV::Str(t.text))] + ser_base_pairs(t.base)
}

pub open spec fn ser_comp_seq(s: Seq<CompView>) -> Seq<JsonV>
    decreases s,
{
    if s.len() == 0 {
        Seq::empty()
    } else {
        seq![ser_comp(s[0])] + ser_comp_seq(s.drop_first())
    }
}

/// The wire object of a component: the discriminating field first, the
/// variant's own fields, then the flattened envelope.
pub open spec fn ser_comp(c: CompView) -> JsonV
    decreases c,
{
    match c {
        CompView::Text(t) => JsonV::Obj(ser_text_pairs(t)),
        CompView::Translatable(t) => JsonV::Obj(
            seq![("translate"@, JsonV::Str(t.translate))] + (if t.args.len() == 0 {
                Seq::<(Seq<char>, JsonV)>::empty()
            } else {
                seq![("with"@, JsonV::Arr(ser_comp_seq(t.args)))]
            }) + ser_base_pairs(t.base),
        ),
        CompView::KeyBind(k) => JsonV::Obj(
            seq![("keybind"@, JsonV::Str(k.key_bind))] + ser_base_pairs(k.base),
        ),
        CompView::Score(s) => JsonV::Obj(
            seq![("score"@, ser_score(s.score))] + ser_base_pairs(s.base),
        ),
        CompView::Selector(s) => JsonV::Obj(
            seq![("selector"@, JsonV::Str(s.selector))] + ser_base_pairs(s.base),
        ),
        CompView::Base(b) => JsonV::Obj(ser_base_pairs(b)),
    }
}

/// `ser_comp_seq` maps `ser_comp` over the elements.
pub proof fn lemma_ser_comp_seq(s: Seq<CompView>)
    ensures
        ser_comp_seq(s).len() == s.len(),
        forall|i: int| 0 <= i < s.len() ==> ser_comp_seq(s)[i] == ser_comp(#[trigger] s[i]),
    decreases s.len(),
{
    if s.len() > 0 {
        lemma_ser_comp_seq(s.drop_first());
        assert forall|i: int| 0 <= i < s.len() implies ser_comp_seq(s)[i] == ser_comp(
            #[trigger] s[i],
        ) by {
            if i > 0 {
                assert(s.drop_first()[i - 1] == s[i]);
                assert(ser_comp_seq(s)[i] == ser_comp_seq(s.drop_first())[i - 1]);
            }
        }
    }
}

// ---------------------------------------------------------------------
// The executable writer.
// ---------------------------------------------------------------------

/// Renders a score holder's name to its wire string.
fn score_name_to_string(n: &ScoreName) -> (r: String)
    ensures
        r@ == ser_score_name(score_name_view(*n)),
{
    match n {
        ScoreName::Literal(s) => s.clone(),
        ScoreName::Uuid(x) => uuid_to_string(*x),
    }
}

/// Writes an explicitly tagged event object.
fn tag_obj(action: &str, value: Json) -> (r: Json)
    ensures
        r@ == JsonV::Obj(tag_pairs(action@, value@)),
{
    let ghost v = value@;
    let mut pairs: Vec<(String, Json)> = Vec::new();
    pairs.push(("action".to_owned(), Json::Str(action.to_owned())));
    pairs.push(("value".to_owned(), value));
    proof {
        lemma_jview_pairs(pairs@);
        assert(jview_pairs(pairs@)[0] == ("action"@, JsonV::Str(action@)));
        assert(jview_pairs(pairs@)[1] == (pairs@[1].0@, jview(pairs@[1].1)));
        assert(jview_pairs(pairs@)[1] == ("value"@, v));
        assert(jview_pairs(pairs@) =~= tag_pairs(action@, v));
    }
    Json::Obj(pairs)
}

/// Writes a click event to its wire object.
pub fn click_to_json(e: &ClickEvent) -> (r: Json)
    ensures
        r@ == ser_click(click_view(*e)),
{
    match e {
        ClickEvent::OpenUrl(s) => tag_obj("open_url", Json::Str(s.clone())),
        ClickEvent::RunCommand(s) => tag_obj("run_command", Json::Str(s.clone())),
        ClickEvent::SuggestCommand(s) => tag_obj("suggest_command", Json::Str(s.clone())),
        ClickEvent::ChangePage(n) => tag_obj("change_page", Json::UInt(*n as u64)),
        ClickEvent::CopyToClipboard(s) => tag_obj("copy_to_clipboard", Json::Str(s.clone())),
    }
}

/// Writes a score to its wire object.
fn score_to_json(s: &Score) -> (r: Json)
    ensures
        r@ == ser_score(score_view(*s)),
{
    let mut pairs: Vec<(String, Json)> = Vec::new();
    pairs.push(("name".to_owned(), Json::Str(score_name_to_string(&s.name))));
    pairs.push(("objective".to_owned(), Json::Str(s.objective.clone())));
    let skip = match &s.value {
        Json::Null => true,
        _ => false,
    };
    if !skip {
        pairs.push(("value".to_owned(), s.value.clone()));
    }
    proof {
        lemma_jview_pairs(pairs@);
        let sv = score_view(*s);
        let want = seq![
            ("name"@, JsonV::Str(ser_score_name(sv.name))),
            ("objective"@, JsonV::Str(sv.objective)),
        ] + (if sv.value is Null {
            Seq::<(Seq<char>, JsonV)>::empty()
        } else {
            seq![("value"@, sv.value)]
        });
        assert(jview_pairs(pairs@)[0] == ("name"@, JsonV::Str(ser_score_name(sv.name))));
        assert(jview_pairs(pairs@)[1] == (pairs@[1].0@, jview(pairs@[1].1)));
        assert(jview_pairs(pairs@)[1] == ("objective"@, JsonV::Str(sv.objective)));
        if !(sv.value is Null) {
            assert(jview_pairs(pairs@)[2] == (pairs@[2].0@, jview(pairs@[2].1)));
            assert(jview_pairs(pairs@)[2] == ("value"@, sv.value));
        }
        assert(jview_pairs(pairs@) =~= want);
    }
    Json::Obj(pairs)
}

/// Appends one optional boolean field.
fn push_opt_bool(out: &mut Vec<(String, Json)>, key: &str, v: Option<bool>)
    ensures
        jview_pairs(final(out)@) == jview_pairs(old(out)@) + opt_bool_pairs(key@, v),
{
    let ghost s0 = out@;
    if let Some(x) = v {
        out.push((key.to_owned(), Json::Bool(x)));
        proof {
            assert(out@.drop_last() =~= s0);
            lemma_jview_pairs_last(out@);
            assert(seq![(out@.last().0@, jview(out@.last().1))] =~= opt_bool_pairs(key@, v));
        }
    } else {
        proof {
            assert(jview_pairs(s0) + opt_bool_pairs(key@, v) =~= jview_pairs(s0));
        }
    }
}

/// Appends one optional string field.
fn push_opt_str(out: &mut Vec<(String, Json)>, key: &str, v: &Option<String>)
    ensures
        jview_pairs(final(out)@) == jview_pairs(old(out)@) + opt_str_pairs(
            key@,
            match *v {
                Some(s) => Some(s@),
                None => None,
            },
        ),
{
    let ghost s0 = out@;
    let ghost vv: Option<Seq<char>> = match v {
        Some(s) => Some(s@),
        None => None,
    };
    if let Some(x) = v {
        out.push((key.to_owned(), Json::Str(x.clone())));
        proof {
            assert(out@.drop_last() =~= s0);
            lemma_jview_pairs_last(out@);
            assert(seq![(out@.last().0@, jview(out@.last().1))] =~= opt_str_pairs(key@, vv));
        }
    } else {
        proof {
            assert(jview_pairs(s0) + opt_str_pairs(key@, vv) =~= jview_pairs(s0));
        }
    }
}

/// Appends the font field, rendered as a full identifier string.
fn push_font(out: &mut Vec<(String, Json)>, v: &Option<Identifier>)
    ensures
        jview_pairs(final(out)@) == jview_pairs(old(out)@) + (match *v {
            Some(id) => seq![("font"@, JsonV::Str(id@.fulled()))],
            None => Seq::<(Seq<char>, JsonV)>::empty(),
        }),
{
    let ghost s0 = out@;
    let ghost seg: Seq<(Seq<char>, JsonV)> = match v {
        Some(id) => seq![("font"@, JsonV::Str(id@.fulled()))],
        None => Seq::empty(),
    };
    if let Some(id) = v {
        out.push(("font".to_owned(), Json::Str(id.get_fulled())));
        proof {
            assert(out@.drop_last() =~= s0);
            lemma_jview_pairs_last(out@);
            assert(seq![(out@.last().0@, jview(out@.last().1))] =~= seg);
        }
    } else {
        proof {
            assert(jview_pairs(s0) + seg =~= jview_pairs(s0));
        }
    }
}

/// Appends the color field, rendered as its wire string.
fn push_color(out: &mut Vec<(String, Json)>, v: &Option<Color>)
    ensures
        jview_pairs(final(out)@) == jview_pairs(old(out)@) + (match *v {
            Some(c) => seq![("color"@, JsonV::Str(color_wire(c@)))],
            None => Seq::<(Seq<char>, JsonV)>::empty(),
        }),
{
    let ghost s0 = out@;
    let ghost seg: Seq<(Seq<char>, JsonV)> = match v {
        Some(c) => seq![("color"@, JsonV::Str(color_wire(c@)))],
        None => Seq::empty(),
    };
    if let Some(c) = v {
        out.push(("color".to_owned(), Json::Str(color_to_string(c))));
        proof {
            assert(out@.drop_last() =~= s0);
            lemma_jview_pairs_last(out@);
            assert(seq![(out@.last().0@, jview(out@.last().1))] =~= seg);
        }
    } else {
        proof {
            assert(jview_pairs(s0) + seg =~= jview_pairs(s0));
        }
    }
}

/// Appends the click event field.
fn push_click(out: &mut Vec<(String, Json)>, v: &Option<ClickEvent>)
    ensures
        jview_pairs(final(out)@) == jview_pairs(old(out)@) + (match *v {
            Some(e) => seq![("clickEvent"@, ser_click(click_view(e)))],
            None => Seq::<(Seq<char>, JsonV)>::empty(),
        }),
{
    let ghost s0 = out@;
    let ghost seg: Seq<(Seq<char>, JsonV)> = match v {
        Some(e) => seq![("clickEvent"@, ser_click(click_view(*e)))],
        None => Seq::empty(),
    };
    if let Some(e) = v {
        out.push(("clickEvent".to_owned(), click_to_json(e)));
        proof {
            assert(out@.drop_last() =~= s0);
            lemma_jview_pairs_last(out@);
            assert(seq![(out@.last().0@, jview(out@.last().1))] =~= seg);
        }
    } else {
        proof {
            assert(jview_pairs(s0) + seg =~= jview_pairs(s0));
        }
    }
}

/// Appends the hover event field.
fn push_hover(out: &mut Vec<(String, Json)>, v: &Option<HoverEvent>)
    ensures
        jview_pairs(final(out)@) == jview_pairs(old(out)@) + (match *v {
            Some(h) => seq![("hoverEvent"@, ser_hover(hover_view(h)))],
            None => Seq::<(Seq<char>, JsonV)>::empty(),
        }),
    decreases *v, 1int,
{
    let ghost s0 = out@;
    let ghost seg: Seq<(Seq<char>, JsonV)> = match v {
        Some(h) => seq![("hoverEvent"@, ser_hover(hover_view(*h)))],
        None => Seq::empty(),
    };
    if let Some(h) = v {
        proof {
            assert(decreases_to!(*v => *h));
        }
        let j = hover_to_json(h);
        out.push(("hoverEvent".to_owned(), j));
        proof {
            assert(out@.drop_last() =~= s0);
            lemma_jview_pairs_last(out@);
            assert(seq![(out@.last().0@, jview(out@.last().1))] =~= seg);
        }
    } else {
        proof {
            assert(jview_pairs(s0) + seg =~= jview_pairs(s0));
        }
    }
}

/// Appends the child list field when the list is not empty.
fn push_extra(out: &mut Vec<(String, Json)>, l: &CowList)
    ensures
        jview_pairs(final(out)@) == jview_pairs(old(out)@) + (if comp_seq_view(
            l.contents(),
        ).len() == 0 {
            Seq::<(Seq<char>, JsonV)>::empty()
        } else {
            seq![("extra"@, JsonV::Arr(ser_comp_seq(comp_seq_view(l.contents()))))]
        }),
    decreases *l, 1int,
{
    let ghost s0 = out@;
    let ghost seg: Seq<(Seq<char>, JsonV)> = if comp_seq_view(l.contents()).len() == 0 {
        Seq::empty()
    } else {
        seq![("extra"@, JsonV::Arr(ser_comp_seq(comp_seq_view(l.contents()))))]
    };
    proof {
        lemma_comp_seq_view(l.contents());
    }
    if l.len() > 0 {
        let arr = comp_list_to_json(l);
        out.push(("extra".to_owned(), arr));
        proof {
            assert(out@.drop_last() =~= s0);
            lemma_jview_pairs_last(out@);
            assert(seq![(out@.last().0@, jview(out@.last().1))] =~= seg);
        }
    } else {
        proof {
            assert(jview_pairs(s0) + seg =~= jview_pairs(s0));
        }
    }
}

/// Writes the child list to a wire array.
fn comp_list_to_json(l: &CowList) -> (r: Json)
    ensures
        r@ == JsonV::Arr(ser_comp_seq(comp_seq_view(l.contents()))),
    decreases *l, 0int,
{
    let mut out: Vec<Json> = Vec::new();
    let n = l.len();
    let mut i: usize = 0;
    while i < n
        invariant
            i <= n,
            n == l.contents().len(),
            out@.len() == i,
            forall|k: int| 0 <= k < i ==> jview(#[trigger] out@[k]) == ser_comp(
                cview(l.contents()[k]),
            ),
        decreases n - i,
    {
        let c = l.get(i);
        proof {
            lemma_cow_smaller(*l, i as int);
        }
        let j = component_to_json(c);
        out.push(j);
        i = i + 1;
    }
    proof {
        lemma_jview_seq(out@);
        lemma_comp_seq_view(l.contents());
        lemma_ser_comp_seq(comp_seq_view(l.contents()));
        assert forall|k: int| 0 <= k < n implies jview_seq(out@)[k] == ser_comp_seq(
            comp_seq_view(l.contents()),
        )[k] by {
            assert(jview_seq(out@)[k] == jview(out@[k]));
            assert(comp_seq_view(l.contents())[k] == cview(l.contents()[k]));
        }
        assert(jview_seq(out@) =~= ser_comp_seq(comp_seq_view(l.contents())));
    }
    Json::Arr(out)
}

/// Writes a hover event to its wire object.
fn hover_to_json(h: &HoverEvent) -> (r: Json)
    ensures
        r@ == ser_hover(hover_view(*h)),
    decreases *h, 2int,
{
    match h {
        HoverEvent::ShowText(HoverText::Component(t)) => {
            proof {
                assert(decreases_to!(*h => h->ShowText_0));
                assert(decreases_to!(h->ShowText_0 => h->ShowText_0->Component_0));
                assert(h->ShowText_0->Component_0 == *t);
            }
            tag_obj("show_text", text_to_json(&**t))
        },
        HoverEvent::ShowText(HoverText::Plain(s)) => tag_obj("show_text", Json::Str(s.clone())),
        HoverEvent::ShowItem(s) => tag_obj("show_item", Json::Str(s.clone())),
        HoverEvent::ShowEntity(s) => tag_obj("show_entity", Json::Str(s.clone())),
    }
}

/// Appends the flattened envelope fields to a wire object under
/// construction, in declaration order, skipping unset fields.
fn push_base_pairs(b: &BaseComponent, out: &mut Vec<(String, Json)>)
    ensures
        jview_pairs(final(out)@) == jview_pairs(old(out)@) + ser_base_pairs(base_view(*b)),
    decreases *b, 2int,
{
    let ghost base0 = jview_pairs(old(out)@);
    let ghost bv = base_view(*b);
    let ghost g1 = opt_bool_pairs("bold"@, bv.bold);
    let ghost g2 = opt_bool_pairs("italic"@, bv.italic);
    let ghost g3 = opt_bool_pairs("underlined"@, bv.underlined);
    let ghost g4 = opt_bool_pairs("strikethrough"@, bv.strikethrough);
    let ghost g5 = opt_bool_pairs("obfuscated"@, bv.obfuscated);
    let ghost g6: Seq<(Seq<char>, JsonV)> = match bv.font {
        Some(id) => seq![("font"@, JsonV::Str(id.fulled()))],
        None => Seq::empty(),
    };
    let ghost g7: Seq<(Seq<char>, JsonV)> = match bv.color {
        Some(c) => seq![("color"@, JsonV::Str(color_wire(c)))],
        None => Seq::empty(),
    };
    let ghost g8 = opt_str_pairs("insertion"@, bv.insertion);
    let ghost g9: Seq<(Seq<char>, JsonV)> = if bv.extra.len() == 0 {
        Seq::empty()
    } else {
        seq![("extra"@, JsonV::Arr(ser_comp_seq(bv.extra)))]
    };
    let ghost g10: Seq<(Seq<char>, JsonV)> = match bv.click_event {
        Some(e) => seq![("clickEvent"@, ser_click(e))],
        None => Seq::empty(),
    };
    let ghost g11: Seq<(Seq<char>, JsonV)> = match bv.hover_event {
        Some(h) => seq![("hoverEvent"@, ser_hover(h))],
        None => Seq::empty(),
    };
    push_opt_bool(out, "bold", b.bold);
    push_opt_bool(out, "italic", b.italic);
    push_opt_bool(out, "underlined", b.underlined);
    push_opt_bool(out, "strikethrough", b.strikethrough);
    push_opt_bool(out, "obfuscated", b.obfuscated);
    push_font(out, &b.font);
    push_color(out, &b.color);
    push_opt_str(out, "insertion", &b.insertion);
    proof {
        assert(decreases_to!(*b => b.extra));
        assert(decreases_to!(*b => b.hover_event));
    }
    push_extra(out, &b.extra);
    push_click(out, &b.click_event);
    push_hover(out, &b.hover_event);
    proof {
        assert(jview_pairs(out@) == base0 + g1 + g2 + g3 + g4 + g5 + g6 + g7 + g8 + g9 + g10
            + g11);
        assert(ser_base_pairs(bv) == g1 + g2 + g3 + g4 + g5 + g6 + g7 + g8 + g9 + g10 + g11);
        vstd::seq_lib::lemma_concat_associative(base0, g1, g2);
        vstd::seq_lib::lemma_concat_associative(base0, g1 + g2, g3);
        vstd::seq_lib::lemma_concat_associative(base0, g1 + g2 + g3, g4);
        vstd::seq_lib::lemma_concat_associative(base0, g1 + g2 + g3 + g4, g5);
        vstd::seq_lib::lemma_concat_associative(base0, g1 + g2 + g3 + g4 + g5, g6);
        vstd::seq_lib::lemma_concat_associative(base0, g1 + g2 + g3 + g4 + g5 + g6, g7);
        vstd::seq_lib::lemma_concat_associative(base0, g1 + g2 + g3 + g4 + g5 + g6 + g7, g8);
        vstd::seq_lib::lemma_concat_associative(base0, g1 + g2 + g3 + g4 + g5 + g6 + g7 + g8, g9);
        vstd::seq_lib::lemma_concat_associative(
            base0,
            g1 + g2 + g3 + g4 + g5 + g6 + g7 + g8 + g9,
            g10,
        );
        vstd::seq_lib::lemma_concat_associative(
            base0,
            g1 + g2 + g3 + g4 + g5 + g6 + g7 + g8 + g9 + g10,
            g11,
        );
        assert(jview_pairs(out@) == base0 + ser_base_pairs(bv));
    }
}

/// Writes a text component to its wire object.
fn text_to_json(t: &TextComponent) -> (r: Json)
    ensures
        r@ == JsonV::Obj(ser_text_pairs(text_view(*t))),
    decreases *t, 2int,
{
    let mut pairs: Vec<(String, Json)> = Vec::new();
    pairs.push(("text".to_owned(), Json::Str(t.text.clone())));
    proof {
        lemma_jview_pairs(pairs@);
        assert(jview_pairs(pairs@) =~= seq![("text"@, JsonV::Str(t.text@))]);
        assert(decreases_to!(*t => t.base));
    }
    push_base_pairs(&t.base, &mut pairs);
    Json::Obj(pairs)
}

/// Writes a component tree to its wire value: one flat object per node.
pub fn component_to_json(c: &Component) -> (r: Json)
    ensures
        r@ == ser_comp(c@),
    decreases *c, 3int,
{
    match c {
        Component::Text(t) => {
            proof {
                assert(decreases_to!(*c => *t));
            }
            text_to_json(t)
        },
        Component::Translatable(t) => {
            let mut pairs: Vec<(String, Json)> = Vec::new();
            pairs.push(("translate".to_owned(), Json::Str(t.translate.clone())));
            proof {
                lemma_jview_pairs(pairs@);
                assert(jview_pairs(pairs@) =~= seq![("translate"@, JsonV::Str(t.translate@))]);
            }
            let ghost sw = pairs@;
            if t.with.len() > 0 {
                proof {
                    assert(decreases_to!(*c => *t));
                    assert(decreases_to!(*t => t.with));
                }
                let arr = comp_list_to_json(&t.with);
                pairs.push(("with".to_owned(), arr));
            }
            let ghost tv = cview(*c)->Translatable_0;
            proof {
                lemma_comp_seq_view(t.with.contents());
                if comp_seq_view(t.with.contents()).len() > 0 {
                    assert(pairs@.drop_last() =~= sw);
                    lemma_jview_pairs_last(pairs@);
                }
                assert(jview_pairs(pairs@) =~= seq![("translate"@, JsonV::Str(t.translate@))] + (
                if tv.args.len() == 0 {
                    Seq::<(Seq<char>, JsonV)>::empty()
                } else {
                    seq![("with"@, JsonV::Arr(ser_comp_seq(tv.args)))]
                }));
            }
            proof {
                assert(decreases_to!(*c => *t));
                assert(decreases_to!(*t => t.base));
            }
            push_base_pairs(&t.base, &mut pairs);
            proof {
                vstd::seq_lib::lemma_concat_associative(
                    seq![("translate"@, JsonV::Str(tv.translate))],
                    if tv.args.len() == 0 {
                        Seq::<(Seq<char>, JsonV)>::empty()
                    } else {
                        seq![("with"@, JsonV::Arr(ser_comp_seq(tv.args)))]
                    },
                    ser_base_pairs(tv.base),
                );
            }
            Json::Obj(pairs)
        },
        Component::KeyBind(k) => {
            let mut pairs: Vec<(String, Json)> = Vec::new();
            pairs.push(("keybind".to_owned(), Json::Str(k.key_bind.clone())));
            proof {
                lemma_jview_pairs(pairs@);
                assert(jview_pairs(pairs@) =~= seq![("keybind"@, JsonV::Str(k.key_bind@))]);
                assert(decreases_to!(*c => *k));
                assert(decreases_to!(*k => k.base));
            }
            push_base_pairs(&k.base, &mut pairs);
            Json::Obj(pairs)
        },
        Component::Score(s) => {
            let mut pairs: Vec<(String, Json)> = Vec::new();
            let sj = score_to_json(&s.score);
            pairs.push(("score".to_owned(), sj));
            proof {
                lemma_jview_pairs(pairs@);
                assert(jview_pairs(pairs@) =~= seq![("score"@, ser_score(score_view(s.score)))]);
                assert(decreases_to!(*c => *s));
                assert(decreases_to!(*s => s.base));
            }
            push_base_pairs(&s.base, &mut pairs);
            Json::Obj(pairs)
        },
        Component::Selector(s) => {
            let mut pairs: Vec<(String, Json)> = Vec::new();
            pairs.push(("selector".to_owned(), Json::Str(s.selector.clone())));
            proof {
                lemma_jview_pairs(pairs@);
                assert(jview_pairs(pairs@) =~= seq![("selector"@, JsonV::Str(s.selector@))]);
                assert(decreases_to!(*c => *s));
                assert(decreases_to!(*s => s.base));
            }
            push_base_pairs(&s.base, &mut pairs);
            Json::Obj(pairs)
        },
        Component::Base(b) => {
            let mut pairs: Vec<(String, Json)> = Vec::new();
            proof {
                lemma_jview_pairs(pairs@);
                assert(jview_pairs(pairs@) =~= Seq::<(Seq<char>, JsonV)>::empty());
                assert(decreases_to!(*c => *b));
            }
            push_base_pairs(b, &mut pairs);
            proof {
                assert(Seq::<(Seq<char>, JsonV)>::empty() + ser_base_pairs(base_view(*b))
                    =~= ser_base_pairs(base_view(*b)));
            }
            Json::Obj(pairs)
        },
    }
}

// ---------------------------------------------------------------------
// Reading: wire values back to component values.
// ---------------------------------------------------------------------

/// An optional boolean field: absent is unset, present must be boolean.
pub open spec fn deser_opt_bool(ps: Seq<(Seq<char>, JsonV)>, k: Seq<char>) -> Option<Option<bool>> {
    match obj_lookup(ps, k) {
        None => Some(None),
        Some(JsonV::Bool(b)) => Some(Some(b)),
        Some(_) => None,
    }
}

/// An optional string field: absent is unset, present must be a string.
pub open spec fn deser_opt_str(ps: Seq<(Seq<char>, JsonV)>, k: Seq<char>) -> Option<
    Option<Seq<char>>,
> {
    match obj_lookup(ps, k) {
        None => Some(None),
        Some(JsonV::Str(s)) => Some(Some(s)),
        Some(_) => None,
    }
}

/// The split of a full identifier string at its first separator.
pub open spec fn split_id(s: Seq<char>) -> IdView {
    IdView {
        key: s.subrange(0, first_idx(s, ':')),
        value: s.subrange(first_idx(s, ':') + 1, s.len() as int),
    }
}

/// The font field: a string with exactly one `:`, split into its parts.
pub open spec fn deser_font(ps: Seq<(Seq<char>, JsonV)>) -> Option<Option<IdView>> {
    match obj_lookup(ps, "font"@) {
        None => Some(None),
        Some(JsonV::Str(s)) => if count_char(s, ':') == 1 {
            Some(Some(split_id(s)))
        } else {
            None
        },
        Some(_) => None,
    }
}

/// The color field: a palette name or a hex string, routed by content.
pub open spec fn deser_color_field(ps: Seq<(Seq<char>, JsonV)>) -> Option<Option<ColorView>> {
    match obj_lookup(ps, "color"@) {
        None => Some(None),
        Some(JsonV::Str(s)) => match spec_color_from_wire(s) {
            Some(cv) => Some(Some(cv)),
            None => None,
        },
        Some(_) => None,
    }
}

/// The payload of a click action, typed by the action name.
pub open spec fn deser_click_payload(a: Seq<char>, v: JsonV) -> Option<ClickView> {
    if a == "open_url"@ {
        match v {
            JsonV::Str(s) => Some(ClickView::OpenUrl(s)),
            _ => None,
        }
    } else if a == "run_command"@ {
        match v {
            JsonV::Str(s) => Some(ClickView::RunCommand(s)),
            _ => None,
        }
    } else if a == "suggest_command"@ {
        match v {
            JsonV::Str(s) => Some(ClickView::SuggestCommand(s)),
            _ => None,
        }
    } else if a == "change_page"@ {
        match v {
            JsonV::UInt(n) => if n <= usize::MAX as u64 {
                Some(ClickView::ChangePage(n as usize))
            } else {
                None
            },
            _ => None,
        }
    } else if a == "copy_to_clipboard"@ {
        match v {
            JsonV::Str(s) => Some(ClickView::CopyToClipboard(s)),
            _ => None,
        }
    } else {
        None
    }
}

/// A click event object: an explicit `action` tag selects the variant.
pub open spec fn deser_click(j: JsonV) -> Option<ClickView> {
    match j {
        JsonV::Obj(ps) => match (obj_lookup(ps, "action"@), obj_lookup(ps, "value"@)) {
            (Some(JsonV::Str(a)), Some(v)) => deser_click_payload(a, v),
            _ => None,
        },
        _ => None,
    }
}

/// A score object: a string name (always read as a literal), a string
/// objective, and any value, null when absent.
pub open spec fn deser_score_obj(j: JsonV) -> Option<ScoreView> {
    match j {
        JsonV::Obj(ps) => match (obj_lookup(ps, "name"@), obj_lookup(ps, "objective"@)) {
            (Some(JsonV::Str(nm)), Some(JsonV::Str(ob))) => Some(
                ScoreView {
                    name: ScoreNameView::Literal(nm),
                    objective: ob,
                    value: match obj_lookup(ps, "value"@) {
                        Some(v) => v,
                        None => JsonV::Null,
                    },
                },
            ),
            _ => None,
        },
        _ => None,
    }
}

/// A hover event object: the `action` tag selects the variant; a
/// show-text payload is a text component object or a plain string.
pub open spec fn deser_hover(j: JsonV) -> Option<HoverView>
    decreases j, 2int,
{
    match j {
        JsonV::Obj(ps) => match (obj_lookup(ps, "action"@), obj_lookup(ps, "value"@)) {
            (Some(JsonV::Str(a)), Some(v)) => if a == "show_text"@ {
                match v {
                    JsonV::Obj(ps2) => {
                        proof {
                            lemma_lookup_smaller(ps, "value"@);
                        }
                        match deser_text(ps2) {
                            Some(t) => Some(HoverView::ShowText(HoverTextView::Component(Box::new(t)))),
                            None => None,
                        }
                    },
                    JsonV::Str(s) => Some(HoverView::ShowText(HoverTextView::Plain(s))),
                    _ => None,
                }
            } else if a == "show_item"@ {
                match v {
                    JsonV::Str(s) => Some(HoverView::ShowItem(s)),
                    _ => None,
                }
            } else if a == "show_entity"@ {
                match v {
                    JsonV::Str(s) => Some(HoverView::ShowEntity(s)),
                    _ => None,
                }
            } else {
                None
            },
            _ => None,
        },
        _ => None,
    }
}

/// The click event field of an envelope.
pub open spec fn deser_click_field(ps: Seq<(Seq<char>, JsonV)>) -> Option<Option<ClickView>> {
    match obj_lookup(ps, "clickEvent"@) {
        None => Some(None),
        Some(j) => match deser_click(j) {
            Some(e) => Some(Some(e)),
            None => None,
        },
    }
}

/// The hover event field of an envelope.
pub open spec fn deser_hover_field(ps: Seq<(Seq<char>, JsonV)>) -> Option<Option<HoverView>>
    decreases ps, 0int,
{
    match obj_lookup(ps, "hoverEvent"@) {
        None => Some(None),
        Some(j) => {
            proof {
                lemma_lookup_smaller(ps, "hoverEvent"@);
            }
            match deser_hover(j) {
                Some(h) => Some(Some(h)),
                None => None,
            }
        },
    }
}

/// The child list field: absent is empty; present must be an array of
/// components, each of which must read back.
pub open spec fn deser_extra(ps: Seq<(Seq<char>, JsonV)>) -> Option<Seq<CompView>>
    decreases ps, 0int,
{
    match obj_lookup(ps, "extra"@) {
        None => Some(Seq::empty()),
        Some(j) => {
            proof {
                lemma_lookup_smaller(ps, "extra"@);
            }
            match j {
                JsonV::Arr(elems) => deser_comp_seq(elems),
                _ => None,
            }
        },
    }
}

pub open spec fn deser_comp_seq(s: Seq<JsonV>) -> Option<Seq<CompView>>
    decreases s, 3int,
{
    if s.len() == 0 {
        Some(Seq::empty())
    } else {
        match (deser_comp(s[0]), deser_comp_seq(s.drop_first())) {
            (Some(c), Some(rest)) => Some(seq![c] + rest),
            _ => None,
        }
    }
}

/// The flattened style envelope read out of a wire object; unknown
/// fields are ignored, known fields must have their right types.
pub open spec fn deser_base(ps: Seq<(Seq<char>, JsonV)>) -> Option<BaseView>
    decreases ps, 1int,
{
    let bold = deser_opt_bool(ps, "bold"@);
    let italic = deser_opt_bool(ps, "italic"@);
    let underlined = deser_opt_bool(ps, "underlined"@);
    let strikethrough = deser_opt_bool(ps, "strikethrough"@);
    let obfuscated = deser_opt_bool(ps, "obfuscated"@);
    let font = deser_font(ps);
    let color = deser_color_field(ps);
    let insertion = deser_opt_str(ps, "insertion"@);
    let extra = deser_extra(ps);
    let click_event = deser_click_field(ps);
    let hover_event = deser_hover_field(ps);
    if bold is None || italic is None || underlined is None || strikethrough is None || obfuscated
        is None || font is None || color is None || insertion is None || extra is None
        || click_event is None || hover_event is None {
        None
    } else {
        Some(
            BaseView {
                bold: bold->Some_0,
                italic: italic->Some_0,
                underlined: underlined->Some_0,
                strikethrough: strikethrough->Some_0,
                obfuscated: obfuscated->Some_0,
                font: font->Some_0,
                color: color->Some_0,
                insertion: insertion->Some_0,
                extra: extra->Some_0,
                click_event: click_event->Some_0,
                hover_event: hover_event->Some_0,
            },
        )
    }
}

/// The text variant: accepted when `text` is present as a string and
/// the envelope reads back.
pub open spec fn deser_text(ps: Seq<(Seq<char>, JsonV)>) -> Option<TextView>
    decreases ps, 2int,
{
    match obj_lookup(ps, "text"@) {
        Some(JsonV::Str(s)) => match deser_base(ps) {
            Some(b) => Some(TextView { text: s, base: b }),
            None => None,
        },
        _ => None,
    }
}

/// The translatable variant: `translate` present as a string, the
/// argument list absent or an array, and the envelope reads back.
pub open spec fn deser_translatable(ps: Seq<(Seq<char>, JsonV)>) -> Option<TranslatableView>
    decreases ps, 2int,
{
    match obj_lookup(ps, "translate"@) {
        Some(JsonV::Str(s)) => {
            let args = match obj_lookup(ps, "with"@) {
                None => Some(Seq::<CompView>::empty()),
                Some(j) => {
                    proof {
                        lemma_lookup_smaller(ps, "with"@);
                    }
                    match j {
                        JsonV::Arr(elems) => deser_comp_seq(elems),
                        _ => None,
                    }
                },
            };
            match (args, deser_base(ps)) {
                (Some(a), Some(b)) => Some(TranslatableView { translate: s, args: a, base: b }),
                _ => None,
            }
        },
        _ => None,
    }
}

/// The key bind variant.
pub open spec fn deser_keybind(ps: Seq<(Seq<char>, JsonV)>) -> Option<KeyBindView>
    decreases ps, 2int,
{
    match obj_lookup(ps, "keybind"@) {
        Some(JsonV::Str(s)) => match deser_base(ps) {
            Some(b) => Some(KeyBindView { key_bind: s, base: b }),
            None => None,
        },
        _ => None,
    }
}

/// The score variant.
pub open spec fn deser_score_comp(ps: Seq<(Seq<char>, JsonV)>) -> Option<ScoreCompView>
    decreases ps, 2int,
{
    match obj_lookup(ps, "score"@) {
        Some(j) => match (deser_score_obj(j), deser_base(ps)) {
            (Some(sc), Some(b)) => Some(ScoreCompView { score: sc, base: b }),
            _ => None,
        },
        _ => None,
    }
}

/// The selector variant.
pub open spec fn deser_selector(ps: Seq<(Seq<char>, JsonV)>) -> Option<SelectorView>
    decreases ps, 2int,
{
    match obj_lookup(ps, "selector"@) {
        Some(JsonV::Str(s)) => match deser_base(ps) {
            Some(b) => Some(SelectorView { selector: s, base: b }),
            None => None,
        },
        _ => None,
    }
}

/// Reads a component from a wire value. There is no tag: the variants
/// are tried in the fixed priority order — text, translatable, key
/// bind, score, selector, then the bare style envelope — and the first
/// that fits wins. Anything but an object is rejected.
pub open spec fn deser_comp(j: JsonV) -> Option<CompView>
    decreases j, 4int,
{
    match j {
        JsonV::Obj(ps) => if deser_text(ps) is Some {
            Some(CompView::Text(deser_text(ps)->Some_0))
        } else if deser_translatable(ps) is Some {
            Some(CompView::Translatable(deser_translatable(ps)->Some_0))
        } else if deser_keybind(ps) is Some {
            Some(CompView::KeyBind(deser_keybind(ps)->Some_0))
        } else if deser_score_comp(ps) is Some {
            Some(CompView::Score(deser_score_comp(ps)->Some_0))
        } else if deser_selector(ps) is Some {
            Some(CompView::Selector(deser_selector(ps)->Some_0))
        } else if deser_base(ps) is Some {
            Some(CompView::Base(deser_base(ps)->Some_0))
        } else {
            None
        },
        _ => None,
    }
}

// ---------------------------------------------------------------------
// The executable reader.
// ---------------------------------------------------------------------

/// Reading a component can fail in only one way: no variant's shape
/// fits the wire value.
#[derive(Clone, Copy, Debug, PartialEq, Eq, Structural)]
pub enum ComponentError {
    NoMatchingVariant,
}

/// Reads one optional boolean field.
fn get_opt_bool(pairs: &Vec<(String, Json)>, key: &str) -> (r: Option<Option<bool>>)
    ensures
        r == deser_opt_bool(jview_pairs(pairs@), key@),
{
    match obj_get(pairs, key) {
        None => Some(None),
        Some(Json::Bool(b)) => Some(Some(*b)),
        Some(_) => None,
    }
}

/// Reads one optional string field.
fn get_opt_string(pairs: &Vec<(String, Json)>, key: &str) -> (r: Option<Option<String>>)
    ensures
        match deser_opt_str(jview_pairs(pairs@), key@) {
            Some(Some(sv)) => (r matches Some(x) && x matches Some(s) && s@ == sv),
            Some(None) => r == Some(None::<String>),
            None => r is None,
        },
{
    match obj_get(pairs, key) {
        None => Some(None),
        Some(Json::Str(s)) => Some(Some(s.clone())),
        Some(_) => None,
    }
}

/// Reads the font field into a validated identifier.
fn get_font(pairs: &Vec<(String, Json)>) -> (r: Option<Option<Identifier>>)
    ensures
        match deser_font(jview_pairs(pairs@)) {
            Some(Some(idv)) => (r matches Some(x) && x matches Some(id) && id@ == idv),
            Some(None) => (r matches Some(x) && x is None),
            None => r is None,
        },
{
    match obj_get(pairs, "font") {
        None => Some(None),
        Some(Json::Str(s)) => match Identifier::new_fulled(s.as_str()) {
            Ok(id) => {
                id.note_valid();
                proof {
                    crate::identifier::lemma_fulled_unique(id@, s@);
                }
                Some(Some(id))
            },
            Err(_) => None,
        },
        Some(_) => None,
    }
}

/// Reads the color field.
fn get_color(pairs: &Vec<(String, Json)>) -> (r: Option<Option<Color>>)
    ensures
        match deser_color_field(jview_pairs(pairs@)) {
            Some(Some(cv)) => (r matches Some(x) && x matches Some(c) && c@ == cv),
            Some(None) => (r matches Some(x) && x is None),
            None => r is None,
        },
{
    match obj_get(pairs, "color") {
        None => Some(None),
        Some(Json::Str(s)) => match color_from_str(s.as_str()) {
            Some(c) => Some(Some(c)),
            None => None,
        },
        Some(_) => None,
    }
}

/// Reads a click event object.
fn click_from_json(j: &Json) -> (r: Option<ClickEvent>)
    ensures
        match deser_click(j@) {
            Some(ev) => (r matches Some(e) && click_view(e) == ev),
            None => r is None,
        },
{
    let ps = match j {
        Json::Obj(ps) => ps,
        _ => {
            return None;
        },
    };
    let a = match obj_get(ps, "action") {
        Some(Json::Str(a)) => a,
        _ => {
            return None;
        },
    };
    let v = match obj_get(ps, "value") {
        Some(v) => v,
        None => {
            return None;
        },
    };
    if crate::text::str_eq(a.as_str(), "open_url") {
        match v {
            Json::Str(s) => Some(ClickEvent::OpenUrl(s.clone())),
            _ => None,
        }
    } else if crate::text::str_eq(a.as_str(), "run_command") {
        match v {
            Json::Str(s) => Some(ClickEvent::RunCommand(s.clone())),
            _ => None,
        }
    } else if crate::text::str_eq(a.as_str(), "suggest_command") {
        match v {
            Json::Str(s) => Some(ClickEvent::SuggestCommand(s.clone())),
            _ => None,
        }
    } else if crate::text::str_eq(a.as_str(), "change_page") {
        match v {
            Json::UInt(n) => if *n <= usize::MAX as u64 {
                Some(ClickEvent::ChangePage(*n as usize))
            } else {
                None
            },
            _ => None,
        }
    } else if crate::text::str_eq(a.as_str(), "copy_to_clipboard") {
        match v {
            Json::Str(s) => Some(ClickEvent::CopyToClipboard(s.clone())),
            _ => None,
        }
    } else {
        None
    }
}

/// Reads a score object.
fn score_from_json(j: &Json) -> (r: Option<Score>)
    ensures
        match deser_score_obj(j@) {
            Some(sv) => (r matches Some(sc) && score_view(sc) == sv),
            None => r is None,
        },
{
    let ps = match j {
        Json::Obj(ps) => ps,
        _ => {
            return None;
        },
    };
    let nm = match obj_get(ps, "name") {
        Some(Json::Str(s)) => s,
        _ => {
            return None;
        },
    };
    let ob = match obj_get(ps, "objective") {
        Some(Json::Str(s)) => s,
        _ => {
            return None;
        },
    };
    let value = match obj_get(ps, "value") {
        Some(v) => v.clone(),
        None => Json::Null,
    };
    Some(Score { name: ScoreName::Literal(nm.clone()), objective: ob.clone(), value })
}

/// Reads an array of components; every element must read back.
fn components_from_array(elems: &Vec<Json>) -> (r: Option<Vec<Component>>)
    ensures
        match deser_comp_seq(jview_seq(elems@)) {
            Some(cvs) => (r matches Some(v) && comp_seq_view(v@) == cvs),
            None => r is None,
        },
    decreases elems@, 1int,
{
    let mut out: Vec<Component> = Vec::new();
    let n = elems.len();
    let mut i: usize = 0;
    proof {
        lemma_jview_seq(elems@);
    }
    while i < n
        invariant
            i <= n,
            n == elems@.len(),
            out@.len() == i,
            jview_seq(elems@).len() == n,
            forall|k: int| 0 <= k < n ==> jview_seq(elems@)[k] == jview(#[trigger] elems@[k]),
            forall|k: int| 0 <= k < i ==> deser_comp(jview_seq(elems@)[k]) == Some(cview(
                #[trigger] out@[k],
            )),
        decreases n - i,
    {
        proof {
            assert(decreases_to!(elems@ => elems@[i as int]));
        }
        match component_from_json(&elems[i]) {
            Ok(c) => {
                out.push(c);
            },
            Err(_) => {
                proof {
                    lemma_deser_comp_seq(jview_seq(elems@));
                }
                return None;
            },
        }
        i = i + 1;
    }
    proof {
        assert forall|k: int| 0 <= k < jview_seq(elems@).len() implies deser_comp(
            #[trigger] jview_seq(elems@)[k],
        ) is Some by {
            assert(deser_comp(jview_seq(elems@)[k]) == Some(cview(out@[k])));
        }
        lemma_deser_comp_seq(jview_seq(elems@));
        lemma_comp_seq_view(out@);
        let cvs = deser_comp_seq(jview_seq(elems@))->Some_0;
        assert forall|k: int| 0 <= k < n implies comp_seq_view(out@)[k] == cvs[k] by {
            assert(comp_seq_view(out@)[k] == cview(out@[k]));
            assert(deser_comp(jview_seq(elems@)[k]) == Some(cview(out@[k])));
            assert(cvs[k] == deser_comp(jview_seq(elems@)[k])->Some_0);
        }
        assert(comp_seq_view(out@) =~= cvs);
    }
    Some(out)
}

/// Every element reads back exactly when the whole array does, element
/// by element.
pub proof fn lemma_deser_comp_seq(s: Seq<JsonV>)
    ensures
        (deser_comp_seq(s) is Some <==> (forall|i: int|
            0 <= i < s.len() ==> deser_comp(#[trigger] s[i]) is Some)),
        deser_comp_seq(s) matches Some(cvs) ==> cvs.len() == s.len() && (forall|i: int|
            0 <= i < s.len() ==> cvs[i] == deser_comp(#[trigger] s[i])->Some_0),
    decreases s.len(),
{
    if s.len() > 0 {
        lemma_deser_comp_seq(s.drop_first());
        assert forall|i: int| 1 <= i < s.len() implies s.drop_first()[i - 1] == s[i] by {}
        if forall|i: int| 0 <= i < s.len() ==> deser_comp(#[trigger] s[i]) is Some {
            assert(deser_comp(s[0]) is Some);
            assert forall|i: int| 0 <= i < s.drop_first().len() implies deser_comp(
                #[trigger] s.drop_first()[i],
            ) is Some by {
                assert(s.drop_first()[i] == s[i + 1]);
            }
        }
        if deser_comp_seq(s) is Some {
            let cvs = deser_comp_seq(s)->Some_0;
            let rest = deser_comp_seq(s.drop_first())->Some_0;
            assert forall|i: int| 0 <= i < s.len() implies cvs[i] == deser_comp(
                #[trigger] s[i],
            )->Some_0 by {
                if i > 0 {
                    assert(cvs[i] == rest[i - 1]);
                    assert(s.drop_first()[i - 1] == s[i]);
                }
            }
        }
    }
}

/// Reads a hover event object.
fn hover_from_json(j: &Json) -> (r: Option<HoverEvent>)
    ensures
        match deser_hover(j@) {
            Some(hv) => (r matches Some(h) && hover_view(h) == hv),
            None => r is None,
        },
    decreases *j, 4int,
{
    let ps = match j {
        Json::Obj(ps) => ps,
        _ => {
            return None;
        },
    };
    let a = match obj_get(ps, "action") {
        Some(Json::Str(a)) => a,
        _ => {
            return None;
        },
    };
    let v = match obj_get(ps, "value") {
        Some(v) => v,
        None => {
            return None;
        },
    };
    if crate::text::str_eq(a.as_str(), "show_text") {
        match v {
            Json::Obj(ps2) => {
                proof {
                    let i = choose|i: int| 0 <= i < ps@.len() && *v == (#[trigger] ps@[i]).1;
                    assert(decreases_to!(*j => j->Obj_0));
                    assert(decreases_to!(*ps => ps@));
                    assert(decreases_to!(ps@ => ps@[i]));
                    assert(decreases_to!(ps@[i] => ps@[i].1));
                    assert(decreases_to!(*v => v->Obj_0));
                }
                match try_text(ps2) {
                    Some(t) => Some(HoverEvent::ShowText(HoverText::Component(Box::new(t)))),
                    None => None,
                }
            },
            Json::Str(s) => Some(HoverEvent::ShowText(HoverText::Plain(s.clone()))),
            _ => None,
        }
    } else if crate::text::str_eq(a.as_str(), "show_item") {
        match v {
            Json::Str(s) => Some(HoverEvent::ShowItem(s.clone())),
            _ => None,
        }
    } else if crate::text::str_eq(a.as_str(), "show_entity") {
        match v {
            Json::Str(s) => Some(HoverEvent::ShowEntity(s.clone())),
            _ => None,
        }
    } else {
        None
    }
}

/// Reads the flattened style envelope out of a wire object.
fn try_base(pairs: &Vec<(String, Json)>) -> (r: Option<BaseComponent>)
    ensures
        match deser_base(jview_pairs(pairs@)) {
            Some(bv) => (r matches Some(b) && base_view(b) == bv),
            None => r is None,
        },
    decreases pairs@, 2int,
{
    let ghost ps = jview_pairs(pairs@);
    let bold = match get_opt_bool(pairs, "bold") {
        Some(x) => x,
        None => {
            return None;
        },
    };
    let italic = match get_opt_bool(pairs, "italic") {
        Some(x) => x,
        None => {
            return None;
        },
    };
    let underlined = match get_opt_bool(pairs, "underlined") {
        Some(x) => x,
        None => {
            return None;
        },
    };
    let strikethrough = match get_opt_bool(pairs, "strikethrough") {
        Some(x) => x,
        None => {
            return None;
        },
    };
    let obfuscated = match get_opt_bool(pairs, "obfuscated") {
        Some(x) => x,
        None => {
            return None;
        },
    };
    let font = match get_font(pairs) {
        Some(x) => x,
        None => {
            return None;
        },
    };
    let color = match get_color(pairs) {
        Some(x) => x,
        None => {
            return None;
        },
    };
    let insertion = match get_opt_string(pairs, "insertion") {
        Some(x) => x,
        None => {
            return None;
        },
    };
    let extra: CowList = match obj_get(pairs, "extra") {
        None => CowList::new(),
        Some(child) => {
            proof {
                let i = choose|i: int|
                    0 <= i < pairs@.len() && *child == (#[trigger] pairs@[i]).1;
                assert(decreases_to!(pairs@ => pairs@[i]));
                assert(decreases_to!(pairs@[i] => pairs@[i].1));
            }
            match child {
                Json::Arr(elems) => {
                    proof {
                        assert(decreases_to!(*child => child->Arr_0));
                        assert(decreases_to!(*elems => elems@));
                    }
                    match components_from_array(elems) {
                        Some(v) => CowList::owned_from(v),
                        None => {
                            return None;
                        },
                    }
                },
                _ => {
                    return None;
                },
            }
        },
    };
    let click_event = match obj_get(pairs, "clickEvent") {
        None => None,
        Some(child) => match click_from_json(child) {
            Some(e) => Some(e),
            None => {
                return None;
            },
        },
    };
    let hover_event = match obj_get(pairs, "hoverEvent") {
        None => None,
        Some(child) => {
            proof {
                let i = choose|i: int|
                    0 <= i < pairs@.len() && *child == (#[trigger] pairs@[i]).1;
                assert(decreases_to!(pairs@ => pairs@[i]));
                assert(decreases_to!(pairs@[i] => pairs@[i].1));
            }
            match hover_from_json(child) {
                Some(h) => Some(h),
                None => {
                    return None;
                },
            }
        },
    };
    Some(
        BaseComponent {
            bold,
            italic,
            underlined,
            strikethrough,
            obfuscated,
            font,
            color,
            insertion,
            extra,
            click_event,
            hover_event,
        },
    )
}

/// Tries the text variant.
fn try_text(pairs: &Vec<(String, Json)>) -> (r: Option<TextComponent>)
    ensures
        match deser_text(jview_pairs(pairs@)) {
            Some(tv) => (r matches Some(t) && text_view(t) == tv),
            None => r is None,
        },
    decreases pairs@, 3int,
{
    match obj_get(pairs, "text") {
        Some(Json::Str(s)) => match try_base(pairs) {
            Some(b) => Some(TextComponent { text: s.clone(), base: b }),
            None => None,
        },
        _ => None,
    }
}

/// Tries the translatable variant.
fn try_translatable(pairs: &Vec<(String, Json)>) -> (r: Option<TranslatableComponent>)
    ensures
        match deser_translatable(jview_pairs(pairs@)) {
            Some(tv) => (r matches Some(t) && cview(Component::Translatable(t))
                == CompView::Translatable(tv)),
            None => r is None,
        },
    decreases pairs@, 3int,
{
    let s = match obj_get(pairs, "translate") {
        Some(Json::Str(s)) => s,
        _ => {
            return None;
        },
    };
    let args: CowList = match obj_get(pairs, "with") {
        None => CowList::new(),
        Some(child) => {
            proof {
                let i = choose|i: int|
                    0 <= i < pairs@.len() && *child == (#[trigger] pairs@[i]).1;
                assert(decreases_to!(pairs@ => pairs@[i]));
                assert(decreases_to!(pairs@[i] => pairs@[i].1));
            }
            match child {
                Json::Arr(elems) => {
                    proof {
                        assert(decreases_to!(*child => child->Arr_0));
                        assert(decreases_to!(*elems => elems@));
                    }
                    match components_from_array(elems) {
                        Some(v) => CowList::owned_from(v),
                        None => {
                            return None;
                        },
                    }
                },
                _ => {
                    return None;
                },
            }
        },
    };
    match try_base(pairs) {
        Some(b) => Some(TranslatableComponent { translate: s.clone(), with: args, base: b }),
        None => None,
    }
}

/// Tries the key bind variant.
fn try_keybind(pairs: &Vec<(String, Json)>) -> (r: Option<KeyBindComponent>)
    ensures
        match deser_keybind(jview_pairs(pairs@)) {
            Some(kv) => (r matches Some(k) && cview(Component::KeyBind(k)) == CompView::KeyBind(
                kv,
            )),
            None => r is None,
        },
    decreases pairs@, 3int,
{
    match obj_get(pairs, "keybind") {
        Some(Json::Str(s)) => match try_base(pairs) {
            Some(b) => Some(KeyBindComponent { key_bind: s.clone(), base: b }),
            None => None,
        },
        _ => None,
    }
}

/// Tries the score variant.
fn try_score(pairs: &Vec<(String, Json)>) -> (r: Option<ScoreComponent>)
    ensures
        match deser_score_comp(jview_pairs(pairs@)) {
            Some(sv) => (r matches Some(sc) && cview(Component::Score(sc)) == CompView::Score(
                sv,
            )),
            None => r is None,
        },
    decreases pairs@, 3int,
{
    let sc = match obj_get(pairs, "score") {
        Some(child) => match score_from_json(child) {
            Some(sc) => sc,
            None => {
                return None;
            },
        },
        None => {
            return None;
        },
    };
    match try_base(pairs) {
        Some(b) => Some(ScoreComponent { score: sc, base: b }),
        None => None,
    }
}

/// Tries the selector variant.
fn try_selector(pairs: &Vec<(String, Json)>) -> (r: Option<SelectorComponent>)
    ensures
        match deser_selector(jview_pairs(pairs@)) {
            Some(sv) => (r matches Some(s) && cview(Component::Selector(s))
                == CompView::Selector(sv)),
            None => r is None,
        },
    decreases pairs@, 3int,
{
    match obj_get(pairs, "selector") {
        Some(Json::Str(s)) => match try_base(pairs) {
            Some(b) => Some(SelectorComponent { selector: s.clone(), base: b }),
            None => None,
        },
        _ => None,
    }
}

/// Reads a component tree from a wire value: the variants are tried in
/// the fixed priority order and the first whose shape fits wins; the
/// read fails exactly when none matches.
pub fn component_from_json(j: &Json) -> (r: Result<Component, ComponentError>)
    ensures
        match deser_comp(j@) {
            Some(cv) => (r matches Ok(c) && c@ == cv),
            None => r == Err::<Component, _>(ComponentError::NoMatchingVariant),
        },
    decreases *j, 5int,
{
    let pairs = match j {
        Json::Obj(pairs) => pairs,
        _ => {
            return Err(ComponentError::NoMatchingVariant);
        },
    };
    proof {
        assert(decreases_to!(*j => j->Obj_0));
        assert(decreases_to!(*pairs => pairs@));
    }
    if let Some(t) = try_text(pairs) {
        return Ok(Component::Text(t));
    }
    if let Some(t) = try_translatable(pairs) {
        return Ok(Component::Translatable(t));
    }
    if let Some(k) = try_keybind(pairs) {
        return Ok(Component::KeyBind(k));
    }
    if let Some(sc) = try_score(pairs) {
        return Ok(Component::Score(sc));
    }
    if let Some(s) = try_selector(pairs) {
        return Ok(Component::Selector(s));
    }
    if let Some(b) = try_base(pairs) {
        return Ok(Component::Base(b));
    }
    Err(ComponentError::NoMatchingVariant)
}

/// Whether every component of a child list is fit for the round trip.
fn list_round_trippable(l: &CowList) -> (r: bool)
    ensures
        r == (forall|i: int|
            0 <= i < comp_seq_view(l.contents()).len() ==> comp_wf(
                #[trigger] comp_seq_view(l.contents())[i],
            )),
    decreases *l, 1int,
{
    proof {
        lemma_comp_seq_view(l.contents());
    }
    let n = l.len();
    let mut i: usize = 0;
    while i < n
        invariant
            i <= n,
            n == l.contents().len(),
            comp_seq_view(l.contents()).len() == n,
            forall|k: int| 0 <= k < n ==> comp_seq_view(l.contents())[k] == cview(
                #[trigger] l.contents()[k],
            ),
            forall|k: int| 0 <= k < i ==> comp_wf(#[trigger] comp_seq_view(l.contents())[k]),
        decreases n - i,
    {
        let c = l.get(i);
        proof {
            lemma_cow_smaller(*l, i as int);
        }
        if !comp_round_trippable(c) {
            return false;
        }
        i = i + 1;
    }
    true
}

/// Whether a hover event is fit for the round trip.
fn hover_round_trippable(h: &HoverEvent) -> (r: bool)
    ensures
        r == hover_wf(hover_view(*h)),
    decreases *h, 2int,
{
    match h {
        HoverEvent::ShowText(HoverText::Component(t)) => {
            proof {
                assert(decreases_to!(*h => h->ShowText_0));
                assert(decreases_to!(h->ShowText_0 => h->ShowText_0->Component_0));
                assert(h->ShowText_0->Component_0 == *t);
            }
            base_round_trippable(&t.base)
        },
        _ => true,
    }
}

/// Whether an envelope is fit for the round trip. Identifiers always
/// are: their parts never hold the separator.
fn base_round_trippable(b: &BaseComponent) -> (r: bool)
    ensures
        r == base_wf(base_view(*b)),
    decreases *b, 2int,
{
    let ghost bv = base_view(*b);
    if let Some(id) = &b.font {
        id.note_valid();
    }
    proof {
        assert(bv.extra == comp_seq_view(b.extra.contents()));
        assert(match b.font {
            Some(id) => bv.font == Some(id@) && id@.parts_valid(),
            None => bv.font is None,
        });
        assert(decreases_to!(*b => b.extra));
        assert(decreases_to!(*b => b.hover_event));
    }
    if !list_round_trippable(&b.extra) {
        proof {
            assert(!(forall|i: int|
                0 <= i < bv.extra.len() ==> comp_wf(#[trigger] bv.extra[i])));
        }
        return false;
    }
    if let Some(h) = &b.hover_event {
        proof {
            assert(decreases_to!(b.hover_event => *h));
            assert(bv.hover_event == Some(hover_view(*h)));
        }
        if !hover_round_trippable(h) {
            return false;
        }
    }
    true
}

/// Whether a component tree is fit for the round trip.
fn comp_round_trippable(c: &Component) -> (r: bool)
    ensures
        r == comp_wf(c@),
    decreases *c, 3int,
{
    match c {
        Component::Text(t) => {
            proof {
                assert(decreases_to!(*c => *t));
                assert(decreases_to!(*t => t.base));
                assert(c@ == CompView::Text(text_view(*t)));
            }
            base_round_trippable(&t.base)
        },
        Component::Translatable(t) => {
            proof {
                assert(decreases_to!(*c => *t));
                assert(decreases_to!(*t => t.with));
                assert(decreases_to!(*t => t.base));
                assert(c@ matches CompView::Translatable(tv) && tv.args == comp_seq_view(
                    t.with.contents(),
                ) && tv.base == base_view(t.base));
            }
            let args_ok = list_round_trippable(&t.with);
            let base_ok = base_round_trippable(&t.base);
            args_ok && base_ok
        },
        Component::KeyBind(k) => {
            proof {
                assert(decreases_to!(*c => *k));
                assert(decreases_to!(*k => k.base));
                assert(c@ == CompView::KeyBind(
                    KeyBindView { key_bind: k.key_bind@, base: base_view(k.base) },
                ));
            }
            base_round_trippable(&k.base)
        },
        Component::Score(s) => {
            let name_ok = match &s.score.name {
                ScoreName::Literal(_) => true,
                ScoreName::Uuid(_) => false,
            };
            proof {
                assert(decreases_to!(*c => *s));
                assert(decreases_to!(*s => s.base));
                assert(c@ matches CompView::Score(sv) && sv.score == score_view(s.score)
                    && sv.base == base_view(s.base));
                assert(name_ok == (score_view(s.score).name is Literal));
            }
            name_ok && base_round_trippable(&s.base)
        },
        Component::Selector(s) => {
            proof {
                assert(decreases_to!(*c => *s));
                assert(decreases_to!(*s => s.base));
                assert(c@ == CompView::Selector(
                    SelectorView { selector: s.selector@, base: base_view(s.base) },
                ));
            }
            base_round_trippable(&s.base)
        },
        Component::Base(b) => {
            proof {
                assert(decreases_to!(*c => *b));
                assert(c@ == CompView::Base(base_view(*b)));
            }
            base_round_trippable(b)
        },
    }
}

/// Decides whether this tree's written form reads back as the same
/// value, and carries the round trip with it: the check holds exactly
/// when the tree is well formed, and a tree that passes reads back from
/// its own written form. Only a score name given as a UUID fails: it
/// reads back as the literal holding its hyphenated form.
pub fn round_trippable(c: &Component) -> (r: bool)
    ensures
        r == comp_wf(c@),
        r ==> deser_comp(ser_comp(c@)) == Some(c@),
{
    let ok = comp_round_trippable(c);
    proof {
        if ok {
            lemma_component_round_trip(c@);
        }
    }
    ok
}

/// Writes a component tree straight to its JSON text.
pub fn component_to_string(c: &Component) -> (r: String)
    ensures
        r@ == crate::render::render_json(ser_comp(c@)),
{
    let j = component_to_json(c);
    crate::render::render_to_string(&j)
}

} // verus!
