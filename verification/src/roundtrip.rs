//! The round-trip law of the wire mapping: writing any well-formed
//! component tree and reading the result back yields the same abstract
//! value. The proof walks the tree, locating each written field in its
//! flat object and showing that every earlier variant of the untagged
//! dispatch fails before the right one fits.

use vstd::prelude::*;
use crate::codec::{
    deser_base, deser_click, deser_comp, deser_comp_seq, deser_hover, deser_keybind,
    deser_score_comp, deser_score_obj, deser_selector, deser_text, deser_translatable,
    opt_bool_pairs, opt_str_pairs, ser_base_pairs, ser_click, ser_comp, ser_comp_seq, ser_hover,
    ser_score, ser_score_name, ser_text_pairs, split_id, tag_pairs,
};
use crate::color::color_wire;
use crate::component::{
    BaseView, ClickView, CompView, HoverTextView, HoverView, KeyBindView, ScoreCompView,
    ScoreNameView, ScoreView, SelectorView, TextView, TranslatableView,
};
use crate::json::{lemma_lookup_append, lemma_lookup_single, obj_lookup, JsonV};

verus! {

// ---------------------------------------------------------------------
// The round trip: what is written reads back as the same value.
// ---------------------------------------------------------------------

/// Grounds the lengths and leading characters of the wire key and
/// action names, which tells them all apart.
pub proof fn lemma_key_facts()
    ensures
        "text"@.len() == 4 && "text"@[0] == 't',
        "translate"@.len() == 9 && "translate"@[0] == 't',
        "with"@.len() == 4 && "with"@[0] == 'w',
        "keybind"@.len() == 7 && "keybind"@[0] == 'k',
        "score"@.len() == 5 && "score"@[0] == 's',
        "selector"@.len() == 8 && "selector"@[0] == 's',
        "name"@.len() == 4 && "name"@[0] == 'n',
        "objective"@.len() == 9 && "objective"@[0] == 'o',
        "value"@.len() == 5 && "value"@[0] == 'v',
        "action"@.len() == 6 && "action"@[0] == 'a',
        "bold"@.len() == 4 && "bold"@[0] == 'b',
        "italic"@.len() == 6 && "italic"@[0] == 'i',
        "underlined"@.len() == 10 && "underlined"@[0] == 'u',
        "strikethrough"@.len() == 13 && "strikethrough"@[0] == 's',
        "obfuscated"@.len() == 10 && "obfuscated"@[0] == 'o',
        "font"@.len() == 4 && "font"@[0] == 'f',
        "color"@.len() == 5 && "color"@[0] == 'c',
        "insertion"@.len() == 9 && "insertion"@[0] == 'i',
        "extra"@.len() == 5 && "extra"@[0] == 'e',
        "clickEvent"@.len() == 10 && "clickEvent"@[0] == 'c',
        "hoverEvent"@.len() == 10 && "hoverEvent"@[0] == 'h',
        "open_url"@.len() == 8 && "open_url"@[0] == 'o',
        "run_command"@.len() == 11 && "run_command"@[0] == 'r',
        "suggest_command"@.len() == 15 && "suggest_command"@[0] == 's',
        "change_page"@.len() == 11 && "change_page"@[0] == 'c',
        "copy_to_clipboard"@.len() == 17 && "copy_to_clipboard"@[0] == 'c',
        "show_text"@.len() == 9 && "show_text"@[0] == 's',
        "show_item"@.len() == 9 && "show_item"@[0] == 's',
        "show_entity"@.len() == 11 && "show_entity"@[0] == 's',
        "show_text"@[5] == 't',
        "show_item"@[5] == 'i',
        "show_entity"@[5] == 'e',
{
    reveal_strlit("text");
    reveal_strlit("translate");
    reveal_strlit("with");
    reveal_strlit("keybind");
    reveal_strlit("score");
    reveal_strlit("selector");
    reveal_strlit("name");
    reveal_strlit("objective");
    reveal_strlit("value");
    reveal_strlit("action");
    reveal_strlit("bold");
    reveal_strlit("italic");
    reveal_strlit("underlined");
    reveal_strlit("strikethrough");
    reveal_strlit("obfuscated");
    reveal_strlit("font");
    reveal_strlit("color");
    reveal_strlit("insertion");
    reveal_strlit("extra");
    reveal_strlit("clickEvent");
    reveal_strlit("hoverEvent");
    reveal_strlit("open_url");
    reveal_strlit("run_command");
    reveal_strlit("suggest_command");
    reveal_strlit("change_page");
    reveal_strlit("copy_to_clipboard");
    reveal_strlit("show_text");
    reveal_strlit("show_item");
    reveal_strlit("show_entity");
}

/// A hover value whose written form reads back: a carried text
/// component must itself be well formed.
pub open spec fn hover_wf(h: HoverView) -> bool
    decreases h, 1int,
{
    match h {
        HoverView::ShowText(HoverTextView::Component(t)) => text_wf(*t),
        _ => true,
    }
}

pub open spec fn text_wf(t: TextView) -> bool
    decreases t, 1int,
{
    base_wf(t.base)
}

/// An envelope whose written form reads back: the font's parts carry
/// no separator, and children and hover payloads are well formed.
pub open spec fn base_wf(b: BaseView) -> bool
    decreases b, 0int,
{
    &&& (match b.font {
        Some(id) => id.parts_valid(),
        None => true,
    })
    &&& (forall|i: int| 0 <= i < b.extra.len() ==> comp_wf(#[trigger] b.extra[i]))
    &&& (match b.hover_event {
        Some(h) => hover_wf(h),
        None => true,
    })
}

/// A component tree whose written form reads back as the same value:
/// every identifier's parts are separator-free, and every score name is
/// a literal — a name written as a UUID reads back as the literal
/// holding its hyphenated form, not as a UUID.
pub open spec fn comp_wf(c: CompView) -> bool
    decreases c, 2int,
{
    match c {
        CompView::Text(t) => base_wf(t.base),
        CompView::Translatable(t) => (forall|i: int|
            0 <= i < t.args.len() ==> comp_wf(#[trigger] t.args[i])) && base_wf(t.base),
        CompView::KeyBind(k) => base_wf(k.base),
        CompView::Score(s) => s.score.name is Literal && base_wf(s.base),
        CompView::Selector(s) => base_wf(s.base),
        CompView::Base(b) => base_wf(b),
    }
}

/// Looking up in an optional one-field segment.
proof fn lemma_lookup_opt_seg(seg: Seq<(Seq<char>, JsonV)>, segkey: Seq<char>, k: Seq<char>)
    requires
        seg.len() == 0 || (seg.len() == 1 && seg[0].0 == segkey),
    ensures
        k != segkey ==> obj_lookup(seg, k) is None,
        seg.len() == 0 ==> obj_lookup(seg, k) is None,
        (seg.len() == 1 && k == segkey) ==> obj_lookup(seg, k) == Some(seg[0].1),
{
    reveal_with_fuel(obj_lookup, 2);
    if seg.len() == 1 {
        assert(seg.drop_first() =~= Seq::<(Seq<char>, JsonV)>::empty());
    }
}

/// Where the `bold` key stands in a written envelope.
proof fn lemma_base_lookup_bold(b: BaseView)
    ensures
        obj_lookup(ser_base_pairs(b), "bold"@) == (match b.bold {
            Some(x) => Some(JsonV::Bool(x)),
            None => None::<JsonV>,
        }),
{
    let g1 = opt_bool_pairs("bold"@, b.bold);
    let g2 = opt_bool_pairs("italic"@, b.italic);
    let g3 = opt_bool_pairs("underlined"@, b.underlined);
    let g4 = opt_bool_pairs("strikethrough"@, b.strikethrough);
    let g5 = opt_bool_pairs("obfuscated"@, b.obfuscated);
    let g6: Seq<(Seq<char>, JsonV)> = match b.font {
        Some(id) => seq![("font"@, JsonV::Str(id.fulled()))],
        None => Seq::empty(),
    };
    let g7: Seq<(Seq<char>, JsonV)> = match b.color {
        Some(c) => seq![("color"@, JsonV::Str(color_wire(c)))],
        None => Seq::empty(),
    };
    let g8 = opt_str_pairs("insertion"@, b.insertion);
    let g9: Seq<(Seq<char>, JsonV)> = if b.extra.len() == 0 {
        Seq::empty()
    } else {
        seq![("extra"@, JsonV::Arr(ser_comp_seq(b.extra)))]
    };
    let g10: Seq<(Seq<char>, JsonV)> = match b.click_event {
        Some(e) => seq![("clickEvent"@, ser_click(e))],
        None => Seq::empty(),
    };
    let g11: Seq<(Seq<char>, JsonV)> = match b.hover_event {
        Some(h) => seq![("hoverEvent"@, ser_hover(h))],
        None => Seq::empty(),
    };
    assert(ser_base_pairs(b) == g1 + g2 + g3 + g4 + g5 + g6 + g7 + g8 + g9 + g10 + g11);
    lemma_key_facts();
    lemma_lookup_opt_seg(g1, "bold"@, "bold"@);
    lemma_lookup_opt_seg(g2, "italic"@, "bold"@);
    lemma_lookup_opt_seg(g3, "underlined"@, "bold"@);
    lemma_lookup_opt_seg(g4, "strikethrough"@, "bold"@);
    lemma_lookup_opt_seg(g5, "obfuscated"@, "bold"@);
    lemma_lookup_opt_seg(g6, "font"@, "bold"@);
    lemma_lookup_opt_seg(g7, "color"@, "bold"@);
    lemma_lookup_opt_seg(g8, "insertion"@, "bold"@);
    lemma_lookup_opt_seg(g9, "extra"@, "bold"@);
    lemma_lookup_opt_seg(g10, "clickEvent"@, "bold"@);
    lemma_lookup_opt_seg(g11, "hoverEvent"@, "bold"@);
    lemma_lookup_append(g1, g2, "bold"@);
    lemma_lookup_append(g1 + g2, g3, "bold"@);
    lemma_lookup_append(g1 + g2 + g3, g4, "bold"@);
    lemma_lookup_append(g1 + g2 + g3 + g4, g5, "bold"@);
    lemma_lookup_append(g1 + g2 + g3 + g4 + g5, g6, "bold"@);
    lemma_lookup_append(g1 + g2 + g3 + g4 + g5 + g6, g7, "bold"@);
    lemma_lookup_append(g1 + g2 + g3 + g4 + g5 + g6 + g7, g8, "bold"@);
    lemma_lookup_append(g1 + g2 + g3 + g4 + g5 + g6 + g7 + g8, g9, "bold"@);
    lemma_lookup_append(g1 + g2 + g3 + g4 + g5 + g6 + g7 + g8 + g9, g10, "bold"@);
    lemma_lookup_append(g1 + g2 + g3 + g4 + g5 + g6 + g7 + g8 + g9 + g10, g11, "bold"@);
}

/// Where the `italic` key stands in a written envelope.
proof fn lemma_base_lookup_italic(b: BaseView)
    ensures
        obj_lookup(ser_base_pairs(b), "italic"@) == (match b.italic {
            Some(x) => Some(JsonV::Bool(x)),
            None => None::<JsonV>,
        }),
{
    let g1 = opt_bool_pairs("bold"@, b.bold);
    let g2 = opt_bool_pairs("italic"@, b.italic);
    let g3 = opt_bool_pairs("underlined"@, b.underlined);
    let g4 = opt_bool_pairs("strikethrough"@, b.strikethrough);
    let g5 = opt_bool_pairs("obfuscated"@, b.obfuscated);
    let g6: Seq<(Seq<char>, JsonV)> = match b.font {
        Some(id) => seq![("font"@, JsonV::Str(id.fulled()))],
        None => Seq::empty(),
    };
    let g7: Seq<(Seq<char>, JsonV)> = match b.color {
        Some(c) => seq![("color"@, JsonV::Str(color_wire(c)))],
        None => Seq::empty(),
    };
    let g8 = opt_str_pairs("insertion"@, b.insertion);
    let g9: Seq<(Seq<char>, JsonV)> = if b.extra.len() == 0 {
        Seq::empty()
    } else {
        seq![("extra"@, JsonV::Arr(ser_comp_seq(b.extra)))]
    };
    let g10: Seq<(Seq<char>, JsonV)> = match b.click_event {
        Some(e) => seq![("clickEvent"@, ser_click(e))],
        None => Seq::empty(),
    };
    let g11: Seq<(Seq<char>, JsonV)> = match b.hover_event {
        Some(h) => seq![("hoverEvent"@, ser_hover(h))],
        None => Seq::empty(),
    };
    assert(ser_base_pairs(b) == g1 + g2 + g3 + g4 + g5 + g6 + g7 + g8 + g9 + g10 + g11);
    lemma_key_facts();
    lemma_lookup_opt_seg(g1, "bold"@, "italic"@);
    lemma_lookup_opt_seg(g2, "italic"@, "italic"@);
    lemma_lookup_opt_seg(g3, "underlined"@, "italic"@);
    lemma_lookup_opt_seg(g4, "strikethrough"@, "italic"@);
    lemma_lookup_opt_seg(g5, "obfuscated"@, "italic"@);
    lemma_lookup_opt_seg(g6, "font"@, "italic"@);
    lemma_lookup_opt_seg(g7, "color"@, "italic"@);
    lemma_lookup_opt_seg(g8, "insertion"@, "italic"@);
    lemma_lookup_opt_seg(g9, "extra"@, "italic"@);
    lemma_lookup_opt_seg(g10, "clickEvent"@, "italic"@);
    lemma_lookup_opt_seg(g11, "hoverEvent"@, "italic"@);
    lemma_lookup_append(g1, g2, "italic"@);
    lemma_lookup_append(g1 + g2, g3, "italic"@);
    lemma_lookup_append(g1 + g2 + g3, g4, "italic"@);
    lemma_lookup_append(g1 + g2 + g3 + g4, g5, "italic"@);
    lemma_lookup_append(g1 + g2 + g3 + g4 + g5, g6, "italic"@);
    lemma_lookup_append(g1 + g2 + g3 + g4 + g5 + g6, g7, "italic"@);
    lemma_lookup_append(g1 + g2 + g3 + g4 + g5 + g6 + g7, g8, "italic"@);
    lemma_lookup_append(g1 + g2 + g3 + g4 + g5 + g6 + g7 + g8, g9, "italic"@);
    lemma_lookup_append(g1 + g2 + g3 + g4 + g5 + g6 + g7 + g8 + g9, g10, "italic"@);
    lemma_lookup_append(g1 + g2 + g3 + g4 + g5 + g6 + g7 + g8 + g9 + g10, g11, "italic"@);
}

/// Where the `underlined` key stands in a written envelope.
proof fn lemma_base_lookup_underlined(b: BaseView)
    ensures
        obj_lookup(ser_base_pairs(b), "underlined"@) == (match b.underlined {
            Some(x) => Some(JsonV::Bool(x)),
            None => None::<JsonV>,
        }),
{
    let g1 = opt_bool_pairs("bold"@, b.bold);
    let g2 = opt_bool_pairs("italic"@, b.italic);
    let g3 = opt_bool_pairs("underlined"@, b.underlined);
    let g4 = opt_bool_pairs("strikethrough"@, b.strikethrough);
    let g5 = opt_bool_pairs("obfuscated"@, b.obfuscated);
    let g6: Seq<(Seq<char>, JsonV)> = match b.font {
        Some(id) => seq![("font"@, JsonV::Str(id.fulled()))],
        None => Seq::empty(),
    };
    let g7: Seq<(Seq<char>, JsonV)> = match b.color {
        Some(c) => seq![("color"@, JsonV::Str(color_wire(c)))],
        None => Seq::empty(),
    };
    let g8 = opt_str_pairs("insertion"@, b.insertion);
    let g9: Seq<(Seq<char>, JsonV)> = if b.extra.len() == 0 {
        Seq::empty()
    } else {
        seq![("extra"@, JsonV::Arr(ser_comp_seq(b.extra)))]
    };
    let g10: Seq<(Seq<char>, JsonV)> = match b.click_event {
        Some(e) => seq![("clickEvent"@, ser_click(e))],
        None => Seq::empty(),
    };
    let g11: Seq<(Seq<char>, JsonV)> = match b.hover_event {
        Some(h) => seq![("hoverEvent"@, ser_hover(h))],
        None => Seq::empty(),
    };
    assert(ser_base_pairs(b) == g1 + g2 + g3 + g4 + g5 + g6 + g7 + g8 + g9 + g10 + g11);
    lemma_key_facts();
    lemma_lookup_opt_seg(g1, "bold"@, "underlined"@);
    lemma_lookup_opt_seg(g2, "italic"@, "underlined"@);
    lemma_lookup_opt_seg(g3, "underlined"@, "underlined"@);
    lemma_lookup_opt_seg(g4, "strikethrough"@, "underlined"@);
    lemma_lookup_opt_seg(g5, "obfuscated"@, "underlined"@);
    lemma_lookup_opt_seg(g6, "font"@, "underlined"@);
    lemma_lookup_opt_seg(g7, "color"@, "underlined"@);
    lemma_lookup_opt_seg(g8, "insertion"@, "underlined"@);
    lemma_lookup_opt_seg(g9, "extra"@, "underlined"@);
    lemma_lookup_opt_seg(g10, "clickEvent"@, "underlined"@);
    lemma_lookup_opt_seg(g11, "hoverEvent"@, "underlined"@);
    lemma_lookup_append(g1, g2, "underlined"@);
    lemma_lookup_append(g1 + g2, g3, "underlined"@);
    lemma_lookup_append(g1 + g2 + g3, g4, "underlined"@);
    lemma_lookup_append(g1 + g2 + g3 + g4, g5, "underlined"@);
    lemma_lookup_append(g1 + g2 + g3 + g4 + g5, g6, "underlined"@);
    lemma_lookup_append(g1 + g2 + g3 + g4 + g5 + g6, g7, "underlined"@);
    lemma_lookup_append(g1 + g2 + g3 + g4 + g5 + g6 + g7, g8, "underlined"@);
    lemma_lookup_append(g1 + g2 + g3 + g4 + g5 + g6 + g7 + g8, g9, "underlined"@);
    lemma_lookup_append(g1 + g2 + g3 + g4 + g5 + g6 + g7 + g8 + g9, g10, "underlined"@);
    lemma_lookup_append(g1 + g2 + g3 + g4 + g5 + g6 + g7 + g8 + g9 + g10, g11, "underlined"@);
}

/// Where the `strikethrough` key stands in a written envelope.
proof fn lemma_base_lookup_strikethrough(b: BaseView)
    ensures
        obj_lookup(ser_base_pairs(b), "strikethrough"@) == (match b.strikethrough {
            Some(x) => Some(JsonV::Bool(x)),
            None => None::<JsonV>,
        }),
{
    let g1 = opt_bool_pairs("bold"@, b.bold);
    let g2 = opt_bool_pairs("italic"@, b.italic);
    let g3 = opt_bool_pairs("underlined"@, b.underlined);
    let g4 = opt_bool_pairs("strikethrough"@, b.strikethrough);
    let g5 = opt_bool_pairs("obfuscated"@, b.obfuscated);
    let g6: Seq<(Seq<char>, JsonV)> = match b.font {
        Some(id) => seq![("font"@, JsonV::Str(id.fulled()))],
        None => Seq::empty(),
    };
    let g7: Seq<(Seq<char>, JsonV)> = match b.color {
        Some(c) => seq![("color"@, JsonV::Str(color_wire(c)))],
        None => Seq::empty(),
    };
    let g8 = opt_str_pairs("insertion"@, b.insertion);
    let g9: Seq<(Seq<char>, JsonV)> = if b.extra.len() == 0 {
        Seq::empty()
    } else {
        seq![("extra"@, JsonV::Arr(ser_comp_seq(b.extra)))]
    };
    let g10: Seq<(Seq<char>, JsonV)> = match b.click_event {
        Some(e) => seq![("clickEvent"@, ser_click(e))],
        None => Seq::empty(),
    };
    let g11: Seq<(Seq<char>, JsonV)> = match b.hover_event {
        Some(h) => seq![("hoverEvent"@, ser_hover(h))],
        None => Seq::empty(),
    };
    assert(ser_base_pairs(b) == g1 + g2 + g3 + g4 + g5 + g6 + g7 + g8 + g9 + g10 + g11);
    lemma_key_facts();
    lemma_lookup_opt_seg(g1, "bold"@, "strikethrough"@);
    lemma_lookup_opt_seg(g2, "italic"@, "strikethrough"@);
    lemma_lookup_opt_seg(g3, "underlined"@, "strikethrough"@);
    lemma_lookup_opt_seg(g4, "strikethrough"@, "strikethrough"@);
    lemma_lookup_opt_seg(g5, "obfuscated"@, "strikethrough"@);
    lemma_lookup_opt_seg(g6, "font"@, "strikethrough"@);
    lemma_lookup_opt_seg(g7, "color"@, "strikethrough"@);
    lemma_lookup_opt_seg(g8, "insertion"@, "strikethrough"@);
    lemma_lookup_opt_seg(g9, "extra"@, "strikethrough"@);
    lemma_lookup_opt_seg(g10, "clickEvent"@, "strikethrough"@);
    lemma_lookup_opt_seg(g11, "hoverEvent"@, "strikethrough"@);
    lemma_lookup_append(g1, g2, "strikethrough"@);
    lemma_lookup_append(g1 + g2, g3, "strikethrough"@);
    lemma_lookup_append(g1 + g2 + g3, g4, "strikethrough"@);
    lemma_lookup_append(g1 + g2 + g3 + g4, g5, "strikethrough"@);
    lemma_lookup_append(g1 + g2 + g3 + g4 + g5, g6, "strikethrough"@);
    lemma_lookup_append(g1 + g2 + g3 + g4 + g5 + g6, g7, "strikethrough"@);
    lemma_lookup_append(g1 + g2 + g3 + g4 + g5 + g6 + g7, g8, "strikethrough"@);
    lemma_lookup_append(g1 + g2 + g3 + g4 + g5 + g6 + g7 + g8, g9, "strikethrough"@);
    lemma_lookup_append(g1 + g2 + g3 + g4 + g5 + g6 + g7 + g8 + g9, g10, "strikethrough"@);
    lemma_lookup_append(g1 + g2 + g3 + g4 + g5 + g6 + g7 + g8 + g9 + g10, g11, "strikethrough"@);
}

/// Where the `obfuscated` key stands in a written envelope.
proof fn lemma_base_lookup_obfuscated(b: BaseView)
    ensures
        obj_lookup(ser_base_pairs(b), "obfuscated"@) == (match b.obfuscated {
            Some(x) => Some(JsonV::Bool(x)),
            None => None::<JsonV>,
        }),
{
    let g1 = opt_bool_pairs("bold"@, b.bold);
    let g2 = opt_bool_pairs("italic"@, b.italic);
    let g3 = opt_bool_pairs("underlined"@, b.underlined);
    let g4 = opt_bool_pairs("strikethrough"@, b.strikethrough);
    let g5 = opt_bool_pairs("obfuscated"@, b.obfuscated);
    let g6: Seq<(Seq<char>, JsonV)> = match b.font {
        Some(id) => seq![("font"@, JsonV::Str(id.fulled()))],
        None => Seq::empty(),
    };
    let g7: Seq<(Seq<char>, JsonV)> = match b.color {
        Some(c) => seq![("color"@, JsonV::Str(color_wire(c)))],
        None => Seq::empty(),
    };
    let g8 = opt_str_pairs("insertion"@, b.insertion);
    let g9: Seq<(Seq<char>, JsonV)> = if b.extra.len() == 0 {
        Seq::empty()
    } else {
        seq![("extra"@, JsonV::Arr(ser_comp_seq(b.extra)))]
    };
    let g10: Seq<(Seq<char>, JsonV)> = match b.click_event {
        Some(e) => seq![("clickEvent"@, ser_click(e))],
        None => Seq::empty(),
    };
    let g11: Seq<(Seq<char>, JsonV)> = match b.hover_event {
        Some(h) => seq![("hoverEvent"@, ser_hover(h))],
        None => Seq::empty(),
    };
    assert(ser_base_pairs(b) == g1 + g2 + g3 + g4 + g5 + g6 + g7 + g8 + g9 + g10 + g11);
    lemma_key_facts();
    lemma_lookup_opt_seg(g1, "bold"@, "obfuscated"@);
    lemma_lookup_opt_seg(g2, "italic"@, "obfuscated"@);
    lemma_lookup_opt_seg(g3, "underlined"@, "obfuscated"@);
    lemma_lookup_opt_seg(g4, "strikethrough"@, "obfuscated"@);
    lemma_lookup_opt_seg(g5, "obfuscated"@, "obfuscated"@);
    lemma_lookup_opt_seg(g6, "font"@, "obfuscated"@);
    lemma_lookup_opt_seg(g7, "color"@, "obfuscated"@);
    lemma_lookup_opt_seg(g8, "insertion"@, "obfuscated"@);
    lemma_lookup_opt_seg(g9, "extra"@, "obfuscated"@);
    lemma_lookup_opt_seg(g10, "clickEvent"@, "obfuscated"@);
    lemma_lookup_opt_seg(g11, "hoverEvent"@, "obfuscated"@);
    lemma_lookup_append(g1, g2, "obfuscated"@);
    lemma_lookup_append(g1 + g2, g3, "obfuscated"@);
    lemma_lookup_append(g1 + g2 + g3, g4, "obfuscated"@);
    lemma_lookup_append(g1 + g2 + g3 + g4, g5, "obfuscated"@);
    lemma_lookup_append(g1 + g2 + g3 + g4 + g5, g6, "obfuscated"@);
    lemma_lookup_append(g1 + g2 + g3 + g4 + g5 + g6, g7, "obfuscated"@);
    lemma_lookup_append(g1 + g2 + g3 + g4 + g5 + g6 + g7, g8, "obfuscated"@);
    lemma_lookup_append(g1 + g2 + g3 + g4 + g5 + g6 + g7 + g8, g9, "obfuscated"@);
    lemma_lookup_append(g1 + g2 + g3 + g4 + g5 + g6 + g7 + g8 + g9, g10, "obfuscated"@);
    lemma_lookup_append(g1 + g2 + g3 + g4 + g5 + g6 + g7 + g8 + g9 + g10, g11, "obfuscated"@);
}

/// Where the `font` key stands in a written envelope.
proof fn lemma_base_lookup_font(b: BaseView)
    ensures
        obj_lookup(ser_base_pairs(b), "font"@) == (match b.font {
            Some(id) => Some(JsonV::Str(id.fulled())),
            None => None::<JsonV>,
        }),
{
    let g1 = opt_bool_pairs("bold"@, b.bold);
    let g2 = opt_bool_pairs("italic"@, b.italic);
    let g3 = opt_bool_pairs("underlined"@, b.underlined);
    let g4 = opt_bool_pairs("strikethrough"@, b.strikethrough);
    let g5 = opt_bool_pairs("obfuscated"@, b.obfuscated);
    let g6: Seq<(Seq<char>, JsonV)> = match b.font {
        Some(id) => seq![("font"@, JsonV::Str(id.fulled()))],
        None => Seq::empty(),
    };
    let g7: Seq<(Seq<char>, JsonV)> = match b.color {
        Some(c) => seq![("color"@, JsonV::Str(color_wire(c)))],
        None => Seq::empty(),
    };
    let g8 = opt_str_pairs("insertion"@, b.insertion);
    let g9: Seq<(Seq<char>, JsonV)> = if b.extra.len() == 0 {
        Seq::empty()
    } else {
        seq![("extra"@, JsonV::Arr(ser_comp_seq(b.extra)))]
    };
    let g10: Seq<(Seq<char>, JsonV)> = match b.click_event {
        Some(e) => seq![("clickEvent"@, ser_click(e))],
        None => Seq::empty(),
    };
    let g11: Seq<(Seq<char>, JsonV)> = match b.hover_event {
        Some(h) => seq![("hoverEvent"@, ser_hover(h))],
        None => Seq::empty(),
    };
    assert(ser_base_pairs(b) == g1 + g2 + g3 + g4 + g5 + g6 + g7 + g8 + g9 + g10 + g11);
    lemma_key_facts();
    lemma_lookup_opt_seg(g1, "bold"@, "font"@);
    lemma_lookup_opt_seg(g2, "italic"@, "font"@);
    lemma_lookup_opt_seg(g3, "underlined"@, "font"@);
    lemma_lookup_opt_seg(g4, "strikethrough"@, "font"@);
    lemma_lookup_opt_seg(g5, "obfuscated"@, "font"@);
    lemma_lookup_opt_seg(g6, "font"@, "font"@);
    lemma_lookup_opt_seg(g7, "color"@, "font"@);
    lemma_lookup_opt_seg(g8, "insertion"@, "font"@);
    lemma_lookup_opt_seg(g9, "extra"@, "font"@);
    lemma_lookup_opt_seg(g10, "clickEvent"@, "font"@);
    lemma_lookup_opt_seg(g11, "hoverEvent"@, "font"@);
    lemma_lookup_append(g1, g2, "font"@);
    lemma_lookup_append(g1 + g2, g3, "font"@);
    lemma_lookup_append(g1 + g2 + g3, g4, "font"@);
    lemma_lookup_append(g1 + g2 + g3 + g4, g5, "font"@);
    lemma_lookup_append(g1 + g2 + g3 + g4 + g5, g6, "font"@);
    lemma_lookup_append(g1 + g2 + g3 + g4 + g5 + g6, g7, "font"@);
    lemma_lookup_append(g1 + g2 + g3 + g4 + g5 + g6 + g7, g8, "font"@);
    lemma_lookup_append(g1 + g2 + g3 + g4 + g5 + g6 + g7 + g8, g9, "font"@);
    lemma_lookup_append(g1 + g2 + g3 + g4 + g5 + g6 + g7 + g8 + g9, g10, "font"@);
    lemma_lookup_append(g1 + g2 + g3 + g4 + g5 + g6 + g7 + g8 + g9 + g10, g11, "font"@);
}

/// Where the `color` key stands in a written envelope.
proof fn lemma_base_lookup_color(b: BaseView)
    ensures
        obj_lookup(ser_base_pairs(b), "color"@) == (match b.color {
            Some(c) => Some(JsonV::Str(color_wire(c))),
            None => None::<JsonV>,
        }),
{
    let g1 = opt_bool_pairs("bold"@, b.bold);
    let g2 = opt_bool_pairs("italic"@, b.italic);
    let g3 = opt_bool_pairs("underlined"@, b.underlined);
    let g4 = opt_bool_pairs("strikethrough"@, b.strikethrough);
    let g5 = opt_bool_pairs("obfuscated"@, b.obfuscated);
    let g6: Seq<(Seq<char>, JsonV)> = match b.font {
        Some(id) => seq![("font"@, JsonV::Str(id.fulled()))],
        None => Seq::empty(),
    };
    let g7: Seq<(Seq<char>, JsonV)> = match b.color {
        Some(c) => seq![("color"@, JsonV::Str(color_wire(c)))],
        None => Seq::empty(),
    };
    let g8 = opt_str_pairs("insertion"@, b.insertion);
    let g9: Seq<(Seq<char>, JsonV)> = if b.extra.len() == 0 {
        Seq::empty()
    } else {
        seq![("extra"@, JsonV::Arr(ser_comp_seq(b.extra)))]
    };
    let g10: Seq<(Seq<char>, JsonV)> = match b.click_event {
        Some(e) => seq![("clickEvent"@, ser_click(e))],
        None => Seq::empty(),
    };
    let g11: Seq<(Seq<char>, JsonV)> = match b.hover_event {
        Some(h) => seq![("hoverEvent"@, ser_hover(h))],
        None => Seq::empty(),
    };
    assert(ser_base_pairs(b) == g1 + g2 + g3 + g4 + g5 + g6 + g7 + g8 + g9 + g10 + g11);
    lemma_key_facts();
    lemma_lookup_opt_seg(g1, "bold"@, "color"@);
    lemma_lookup_opt_seg(g2, "italic"@, "color"@);
    lemma_lookup_opt_seg(g3, "underlined"@, "color"@);
    lemma_lookup_opt_seg(g4, "strikethrough"@, "color"@);
    lemma_lookup_opt_seg(g5, "obfuscated"@, "color"@);
    lemma_lookup_opt_seg(g6, "font"@, "color"@);
    lemma_lookup_opt_seg(g7, "color"@, "color"@);
    lemma_lookup_opt_seg(g8, "insertion"@, "color"@);
    lemma_lookup_opt_seg(g9, "extra"@, "color"@);
    lemma_lookup_opt_seg(g10, "clickEvent"@, "color"@);
    lemma_lookup_opt_seg(g11, "hoverEvent"@, "color"@);
    lemma_lookup_append(g1, g2, "color"@);
    lemma_lookup_append(g1 + g2, g3, "color"@);
    lemma_lookup_append(g1 + g2 + g3, g4, "color"@);
    lemma_lookup_append(g1 + g2 + g3 + g4, g5, "color"@);
    lemma_lookup_append(g1 + g2 + g3 + g4 + g5, g6, "color"@);
    lemma_lookup_append(g1 + g2 + g3 + g4 + g5 + g6, g7, "color"@);
    lemma_lookup_append(g1 + g2 + g3 + g4 + g5 + g6 + g7, g8, "color"@);
    lemma_lookup_append(g1 + g2 + g3 + g4 + g5 + g6 + g7 + g8, g9, "color"@);
    lemma_lookup_append(g1 + g2 + g3 + g4 + g5 + g6 + g7 + g8 + g9, g10, "color"@);
    lemma_lookup_append(g1 + g2 + g3 + g4 + g5 + g6 + g7 + g8 + g9 + g10, g11, "color"@);
}

/// Where the `insertion` key stands in a written envelope.
proof fn lemma_base_lookup_insertion(b: BaseView)
    ensures
        obj_lookup(ser_base_pairs(b), "insertion"@) == (match b.insertion {
            Some(x) => Some(JsonV::Str(x)),
            None => None::<JsonV>,
        }),
{
    let g1 = opt_bool_pairs("bold"@, b.bold);
    let g2 = opt_bool_pairs("italic"@, b.italic);
    let g3 = opt_bool_pairs("underlined"@, b.underlined);
    let g4 = opt_bool_pairs("strikethrough"@, b.strikethrough);
    let g5 = opt_bool_pairs("obfuscated"@, b.obfuscated);
    let g6: Seq<(Seq<char>, JsonV)> = match b.font {
        Some(id) => seq![("font"@, JsonV::Str(id.fulled()))],
        None => Seq::empty(),
    };
    let g7: Seq<(Seq<char>, JsonV)> = match b.color {
        Some(c) => seq![("color"@, JsonV::Str(color_wire(c)))],
        None => Seq::empty(),
    };
    let g8 = opt_str_pairs("insertion"@, b.insertion);
    let g9: Seq<(Seq<char>, JsonV)> = if b.extra.len() == 0 {
        Seq::empty()
    } else {
        seq![("extra"@, JsonV::Arr(ser_comp_seq(b.extra)))]
    };
    let g10: Seq<(Seq<char>, JsonV)> = match b.click_event {
        Some(e) => seq![("clickEvent"@, ser_click(e))],
        None => Seq::empty(),
    };
    let g11: Seq<(Seq<char>, JsonV)> = match b.hover_event {
        Some(h) => seq![("hoverEvent"@, ser_hover(h))],
        None => Seq::empty(),
    };
    assert(ser_base_pairs(b) == g1 + g2 + g3 + g4 + g5 + g6 + g7 + g8 + g9 + g10 + g11);
    lemma_key_facts();
    lemma_lookup_opt_seg(g1, "bold"@, "insertion"@);
    lemma_lookup_opt_seg(g2, "italic"@, "insertion"@);
    lemma_lookup_opt_seg(g3, "underlined"@, "insertion"@);
    lemma_lookup_opt_seg(g4, "strikethrough"@, "insertion"@);
    lemma_lookup_opt_seg(g5, "obfuscated"@, "insertion"@);
    lemma_lookup_opt_seg(g6, "font"@, "insertion"@);
    lemma_lookup_opt_seg(g7, "color"@, "insertion"@);
    lemma_lookup_opt_seg(g8, "insertion"@, "insertion"@);
    lemma_lookup_opt_seg(g9, "extra"@, "insertion"@);
    lemma_lookup_opt_seg(g10, "clickEvent"@, "insertion"@);
    lemma_lookup_opt_seg(g11, "hoverEvent"@, "insertion"@);
    lemma_lookup_append(g1, g2, "insertion"@);
    lemma_lookup_append(g1 + g2, g3, "insertion"@);
    lemma_lookup_append(g1 + g2 + g3, g4, "insertion"@);
    lemma_lookup_append(g1 + g2 + g3 + g4, g5, "insertion"@);
    lemma_lookup_append(g1 + g2 + g3 + g4 + g5, g6, "insertion"@);
    lemma_lookup_append(g1 + g2 + g3 + g4 + g5 + g6, g7, "insertion"@);
    lemma_lookup_append(g1 + g2 + g3 + g4 + g5 + g6 + g7, g8, "insertion"@);
    lemma_lookup_append(g1 + g2 + g3 + g4 + g5 + g6 + g7 + g8, g9, "insertion"@);
    lemma_lookup_append(g1 + g2 + g3 + g4 + g5 + g6 + g7 + g8 + g9, g10, "insertion"@);
    lemma_lookup_append(g1 + g2 + g3 + g4 + g5 + g6 + g7 + g8 + g9 + g10, g11, "insertion"@);
}

/// Where the `extra` key stands in a written envelope.
proof fn lemma_base_lookup_extra(b: BaseView)
    ensures
        obj_lookup(ser_base_pairs(b), "extra"@) == (if b.extra.len() == 0 {
            None::<JsonV>
        } else {
            Some(JsonV::Arr(ser_comp_seq(b.extra)))
        }),
{
    let g1 = opt_bool_pairs("bold"@, b.bold);
    let g2 = opt_bool_pairs("italic"@, b.italic);
    let g3 = opt_bool_pairs("underlined"@, b.underlined);
    let g4 = opt_bool_pairs("strikethrough"@, b.strikethrough);
    let g5 = opt_bool_pairs("obfuscated"@, b.obfuscated);
    let g6: Seq<(Seq<char>, JsonV)> = match b.font {
        Some(id) => seq![("font"@, JsonV::Str(id.fulled()))],
        None => Seq::empty(),
    };
    let g7: Seq<(Seq<char>, JsonV)> = match b.color {
        Some(c) => seq![("color"@, JsonV::Str(color_wire(c)))],
        None => Seq::empty(),
    };
    let g8 = opt_str_pairs("insertion"@, b.insertion);
    let g9: Seq<(Seq<char>, JsonV)> = if b.extra.len() == 0 {
        Seq::empty()
    } else {
        seq![("extra"@, JsonV::Arr(ser_comp_seq(b.extra)))]
    };
    let g10: Seq<(Seq<char>, JsonV)> = match b.click_event {
        Some(e) => seq![("clickEvent"@, ser_click(e))],
        None => Seq::empty(),
    };
    let g11: Seq<(Seq<char>, JsonV)> = match b.hover_event {
        Some(h) => seq![("hoverEvent"@, ser_hover(h))],
        None => Seq::empty(),
    };
    assert(ser_base_pairs(b) == g1 + g2 + g3 + g4 + g5 + g6 + g7 + g8 + g9 + g10 + g11);
    lemma_key_facts();
    lemma_lookup_opt_seg(g1, "bold"@, "extra"@);
    lemma_lookup_opt_seg(g2, "italic"@, "extra"@);
    lemma_lookup_opt_seg(g3, "underlined"@, "extra"@);
    lemma_lookup_opt_seg(g4, "strikethrough"@, "extra"@);
    lemma_lookup_opt_seg(g5, "obfuscated"@, "extra"@);
    lemma_lookup_opt_seg(g6, "font"@, "extra"@);
    lemma_lookup_opt_seg(g7, "color"@, "extra"@);
    lemma_lookup_opt_seg(g8, "insertion"@, "extra"@);
    lemma_lookup_opt_seg(g9, "extra"@, "extra"@);
    lemma_lookup_opt_seg(g10, "clickEvent"@, "extra"@);
    lemma_lookup_opt_seg(g11, "hoverEvent"@, "extra"@);
    lemma_lookup_append(g1, g2, "extra"@);
    lemma_lookup_append(g1 + g2, g3, "extra"@);
    lemma_lookup_append(g1 + g2 + g3, g4, "extra"@);
    lemma_lookup_append(g1 + g2 + g3 + g4, g5, "extra"@);
    lemma_lookup_append(g1 + g2 + g3 + g4 + g5, g6, "extra"@);
    lemma_lookup_append(g1 + g2 + g3 + g4 + g5 + g6, g7, "extra"@);
    lemma_lookup_append(g1 + g2 + g3 + g4 + g5 + g6 + g7, g8, "extra"@);
    lemma_lookup_append(g1 + g2 + g3 + g4 + g5 + g6 + g7 + g8, g9, "extra"@);
    lemma_lookup_append(g1 + g2 + g3 + g4 + g5 + g6 + g7 + g8 + g9, g10, "extra"@);
    lemma_lookup_append(g1 + g2 + g3 + g4 + g5 + g6 + g7 + g8 + g9 + g10, g11, "extra"@);
}

/// Where the `clickEvent` key stands in a written envelope.
proof fn lemma_base_lookup_click(b: BaseView)
    ensures
        obj_lookup(ser_base_pairs(b), "clickEvent"@) == (match b.click_event {
            Some(e) => Some(ser_click(e)),
            None => None::<JsonV>,
        }),
{
    let g1 = opt_bool_pairs("bold"@, b.bold);
    let g2 = opt_bool_pairs("italic"@, b.italic);
    let g3 = opt_bool_pairs("underlined"@, b.underlined);
    let g4 = opt_bool_pairs("strikethrough"@, b.strikethrough);
    let g5 = opt_bool_pairs("obfuscated"@, b.obfuscated);
    let g6: Seq<(Seq<char>, JsonV)> = match b.font {
        Some(id) => seq![("font"@, JsonV::Str(id.fulled()))],
        None => Seq::empty(),
    };
    let g7: Seq<(Seq<char>, JsonV)> = match b.color {
        Some(c) => seq![("color"@, JsonV::Str(color_wire(c)))],
        None => Seq::empty(),
    };
    let g8 = opt_str_pairs("insertion"@, b.insertion);
    let g9: Seq<(Seq<char>, JsonV)> = if b.extra.len() == 0 {
        Seq::empty()
    } else {
        seq![("extra"@, JsonV::Arr(ser_comp_seq(b.extra)))]
    };
    let g10: Seq<(Seq<char>, JsonV)> = match b.click_event {
        Some(e) => seq![("clickEvent"@, ser_click(e))],
        None => Seq::empty(),
    };
    let g11: Seq<(Seq<char>, JsonV)> = match b.hover_event {
        Some(h) => seq![("hoverEvent"@, ser_hover(h))],
        None => Seq::empty(),
    };
    assert(ser_base_pairs(b) == g1 + g2 + g3 + g4 + g5 + g6 + g7 + g8 + g9 + g10 + g11);
    lemma_key_facts();
    lemma_lookup_opt_seg(g1, "bold"@, "clickEvent"@);
    lemma_lookup_opt_seg(g2, "italic"@, "clickEvent"@);
    lemma_lookup_opt_seg(g3, "underlined"@, "clickEvent"@);
    lemma_lookup_opt_seg(g4, "strikethrough"@, "clickEvent"@);
    lemma_lookup_opt_seg(g5, "obfuscated"@, "clickEvent"@);
    lemma_lookup_opt_seg(g6, "font"@, "clickEvent"@);
    lemma_lookup_opt_seg(g7, "color"@, "clickEvent"@);
    lemma_lookup_opt_seg(g8, "insertion"@, "clickEvent"@);
    lemma_lookup_opt_seg(g9, "extra"@, "clickEvent"@);
    lemma_lookup_opt_seg(g10, "clickEvent"@, "clickEvent"@);
    lemma_lookup_opt_seg(g11, "hoverEvent"@, "clickEvent"@);
    lemma_lookup_append(g1, g2, "clickEvent"@);
    lemma_lookup_append(g1 + g2, g3, "clickEvent"@);
    lemma_lookup_append(g1 + g2 + g3, g4, "clickEvent"@);
    lemma_lookup_append(g1 + g2 + g3 + g4, g5, "clickEvent"@);
    lemma_lookup_append(g1 + g2 + g3 + g4 + g5, g6, "clickEvent"@);
    lemma_lookup_append(g1 + g2 + g3 + g4 + g5 + g6, g7, "clickEvent"@);
    lemma_lookup_append(g1 + g2 + g3 + g4 + g5 + g6 + g7, g8, "clickEvent"@);
    lemma_lookup_append(g1 + g2 + g3 + g4 + g5 + g6 + g7 + g8, g9, "clickEvent"@);
    lemma_lookup_append(g1 + g2 + g3 + g4 + g5 + g6 + g7 + g8 + g9, g10, "clickEvent"@);
    lemma_lookup_append(g1 + g2 + g3 + g4 + g5 + g6 + g7 + g8 + g9 + g10, g11, "clickEvent"@);
}

/// Where the `hoverEvent` key stands in a written envelope.
proof fn lemma_base_lookup_hover(b: BaseView)
    ensures
        obj_lookup(ser_base_pairs(b), "hoverEvent"@) == (match b.hover_event {
            Some(h) => Some(ser_hover(h)),
            None => None::<JsonV>,
        }),
{
    let g1 = opt_bool_pairs("bold"@, b.bold);
    let g2 = opt_bool_pairs("italic"@, b.italic);
    let g3 = opt_bool_pairs("underlined"@, b.underlined);
    let g4 = opt_bool_pairs("strikethrough"@, b.strikethrough);
    let g5 = opt_bool_pairs("obfuscated"@, b.obfuscated);
    let g6: Seq<(Seq<char>, JsonV)> = match b.font {
        Some(id) => seq![("font"@, JsonV::Str(id.fulled()))],
        None => Seq::empty(),
    };
    let g7: Seq<(Seq<char>, JsonV)> = match b.color {
        Some(c) => seq![("color"@, JsonV::Str(color_wire(c)))],
        None => Seq::empty(),
    };
    let g8 = opt_str_pairs("insertion"@, b.insertion);
    let g9: Seq<(Seq<char>, JsonV)> = if b.extra.len() == 0 {
        Seq::empty()
    } else {
        seq![("extra"@, JsonV::Arr(ser_comp_seq(b.extra)))]
    };
    let g10: Seq<(Seq<char>, JsonV)> = match b.click_event {
        Some(e) => seq![("clickEvent"@, ser_click(e))],
        None => Seq::empty(),
    };
    let g11: Seq<(Seq<char>, JsonV)> = match b.hover_event {
        Some(h) => seq![("hoverEvent"@, ser_hover(h))],
        None => Seq::empty(),
    };
    assert(ser_base_pairs(b) == g1 + g2 + g3 + g4 + g5 + g6 + g7 + g8 + g9 + g10 + g11);
    lemma_key_facts();
    lemma_lookup_opt_seg(g1, "bold"@, "hoverEvent"@);
    lemma_lookup_opt_seg(g2, "italic"@, "hoverEvent"@);
    lemma_lookup_opt_seg(g3, "underlined"@, "hoverEvent"@);
    lemma_lookup_opt_seg(g4, "strikethrough"@, "hoverEvent"@);
    lemma_lookup_opt_seg(g5, "obfuscated"@, "hoverEvent"@);
    lemma_lookup_opt_seg(g6, "font"@, "hoverEvent"@);
    lemma_lookup_opt_seg(g7, "color"@, "hoverEvent"@);
    lemma_lookup_opt_seg(g8, "insertion"@, "hoverEvent"@);
    lemma_lookup_opt_seg(g9, "extra"@, "hoverEvent"@);
    lemma_lookup_opt_seg(g10, "clickEvent"@, "hoverEvent"@);
    lemma_lookup_opt_seg(g11, "hoverEvent"@, "hoverEvent"@);
    lemma_lookup_append(g1, g2, "hoverEvent"@);
    lemma_lookup_append(g1 + g2, g3, "hoverEvent"@);
    lemma_lookup_append(g1 + g2 + g3, g4, "hoverEvent"@);
    lemma_lookup_append(g1 + g2 + g3 + g4, g5, "hoverEvent"@);
    lemma_lookup_append(g1 + g2 + g3 + g4 + g5, g6, "hoverEvent"@);
    lemma_lookup_append(g1 + g2 + g3 + g4 + g5 + g6, g7, "hoverEvent"@);
    lemma_lookup_append(g1 + g2 + g3 + g4 + g5 + g6 + g7, g8, "hoverEvent"@);
    lemma_lookup_append(g1 + g2 + g3 + g4 + g5 + g6 + g7 + g8, g9, "hoverEvent"@);
    lemma_lookup_append(g1 + g2 + g3 + g4 + g5 + g6 + g7 + g8 + g9, g10, "hoverEvent"@);
    lemma_lookup_append(g1 + g2 + g3 + g4 + g5 + g6 + g7 + g8 + g9 + g10, g11, "hoverEvent"@);
}

/// Where the `text` key stands in a written envelope.
proof fn lemma_base_lookup_text(b: BaseView)
    ensures
        obj_lookup(ser_base_pairs(b), "text"@) is None,
{
    let g1 = opt_bool_pairs("bold"@, b.bold);
    let g2 = opt_bool_pairs("italic"@, b.italic);
    let g3 = opt_bool_pairs("underlined"@, b.underlined);
    let g4 = opt_bool_pairs("strikethrough"@, b.strikethrough);
    let g5 = opt_bool_pairs("obfuscated"@, b.obfuscated);
    let g6: Seq<(Seq<char>, JsonV)> = match b.font {
        Some(id) => seq![("font"@, JsonV::Str(id.fulled()))],
        None => Seq::empty(),
    };
    let g7: Seq<(Seq<char>, JsonV)> = match b.color {
        Some(c) => seq![("color"@, JsonV::Str(color_wire(c)))],
        None => Seq::empty(),
    };
    let g8 = opt_str_pairs("insertion"@, b.insertion);
    let g9: Seq<(Seq<char>, JsonV)> = if b.extra.len() == 0 {
        Seq::empty()
    } else {
        seq![("extra"@, JsonV::Arr(ser_comp_seq(b.extra)))]
    };
    let g10: Seq<(Seq<char>, JsonV)> = match b.click_event {
        Some(e) => seq![("clickEvent"@, ser_click(e))],
        None => Seq::empty(),
    };
    let g11: Seq<(Seq<char>, JsonV)> = match b.hover_event {
        Some(h) => seq![("hoverEvent"@, ser_hover(h))],
        None => Seq::empty(),
    };
    assert(ser_base_pairs(b) == g1 + g2 + g3 + g4 + g5 + g6 + g7 + g8 + g9 + g10 + g11);
    lemma_key_facts();
    lemma_lookup_opt_seg(g1, "bold"@, "text"@);
    lemma_lookup_opt_seg(g2, "italic"@, "text"@);
    lemma_lookup_opt_seg(g3, "underlined"@, "text"@);
    lemma_lookup_opt_seg(g4, "strikethrough"@, "text"@);
    lemma_lookup_opt_seg(g5, "obfuscated"@, "text"@);
    lemma_lookup_opt_seg(g6, "font"@, "text"@);
    lemma_lookup_opt_seg(g7, "color"@, "text"@);
    lemma_lookup_opt_seg(g8, "insertion"@, "text"@);
    lemma_lookup_opt_seg(g9, "extra"@, "text"@);
    lemma_lookup_opt_seg(g10, "clickEvent"@, "text"@);
    lemma_lookup_opt_seg(g11, "hoverEvent"@, "text"@);
    lemma_lookup_append(g1, g2, "text"@);
    lemma_lookup_append(g1 + g2, g3, "text"@);
    lemma_lookup_append(g1 + g2 + g3, g4, "text"@);
    lemma_lookup_append(g1 + g2 + g3 + g4, g5, "text"@);
    lemma_lookup_append(g1 + g2 + g3 + g4 + g5, g6, "text"@);
    lemma_lookup_append(g1 + g2 + g3 + g4 + g5 + g6, g7, "text"@);
    lemma_lookup_append(g1 + g2 + g3 + g4 + g5 + g6 + g7, g8, "text"@);
    lemma_lookup_append(g1 + g2 + g3 + g4 + g5 + g6 + g7 + g8, g9, "text"@);
    lemma_lookup_append(g1 + g2 + g3 + g4 + g5 + g6 + g7 + g8 + g9, g10, "text"@);
    lemma_lookup_append(g1 + g2 + g3 + g4 + g5 + g6 + g7 + g8 + g9 + g10, g11, "text"@);
}

/// Where the `translate` key stands in a written envelope.
proof fn lemma_base_lookup_translate(b: BaseView)
    ensures
        obj_lookup(ser_base_pairs(b), "translate"@) is None,
{
    let g1 = opt_bool_pairs("bold"@, b.bold);
    let g2 = opt_bool_pairs("italic"@, b.italic);
    let g3 = opt_bool_pairs("underlined"@, b.underlined);
    let g4 = opt_bool_pairs("strikethrough"@, b.strikethrough);
    let g5 = opt_bool_pairs("obfuscated"@, b.obfuscated);
    let g6: Seq<(Seq<char>, JsonV)> = match b.font {
        Some(id) => seq![("font"@, JsonV::Str(id.fulled()))],
        None => Seq::empty(),
    };
    let g7: Seq<(Seq<char>, JsonV)> = match b.color {
        Some(c) => seq![("color"@, JsonV::Str(color_wire(c)))],
        None => Seq::empty(),
    };
    let g8 = opt_str_pairs("insertion"@, b.insertion);
    let g9: Seq<(Seq<char>, JsonV)> = if b.extra.len() == 0 {
        Seq::empty()
    } else {
        seq![("extra"@, JsonV::Arr(ser_comp_seq(b.extra)))]
    };
    let g10: Seq<(Seq<char>, JsonV)> = match b.click_event {
        Some(e) => seq![("clickEvent"@, ser_click(e))],
        None => Seq::empty(),
    };
    let g11: Seq<(Seq<char>, JsonV)> = match b.hover_event {
        Some(h) => seq![("hoverEvent"@, ser_hover(h))],
        None => Seq::empty(),
    };
    assert(ser_base_pairs(b) == g1 + g2 + g3 + g4 + g5 + g6 + g7 + g8 + g9 + g10 + g11);
    lemma_key_facts();
    lemma_lookup_opt_seg(g1, "bold"@, "translate"@);
    lemma_lookup_opt_seg(g2, "italic"@, "translate"@);
    lemma_lookup_opt_seg(g3, "underlined"@, "translate"@);
    lemma_lookup_opt_seg(g4, "strikethrough"@, "translate"@);
    lemma_lookup_opt_seg(g5, "obfuscated"@, "translate"@);
    lemma_lookup_opt_seg(g6, "font"@, "translate"@);
    lemma_lookup_opt_seg(g7, "color"@, "translate"@);
    lemma_lookup_opt_seg(g8, "insertion"@, "translate"@);
    lemma_lookup_opt_seg(g9, "extra"@, "translate"@);
    lemma_lookup_opt_seg(g10, "clickEvent"@, "translate"@);
    lemma_lookup_opt_seg(g11, "hoverEvent"@, "translate"@);
    lemma_lookup_append(g1, g2, "translate"@);
    lemma_lookup_append(g1 + g2, g3, "translate"@);
    lemma_lookup_append(g1 + g2 + g3, g4, "translate"@);
    lemma_lookup_append(g1 + g2 + g3 + g4, g5, "translate"@);
    lemma_lookup_append(g1 + g2 + g3 + g4 + g5, g6, "translate"@);
    lemma_lookup_append(g1 + g2 + g3 + g4 + g5 + g6, g7, "translate"@);
    lemma_lookup_append(g1 + g2 + g3 + g4 + g5 + g6 + g7, g8, "translate"@);
    lemma_lookup_append(g1 + g2 + g3 + g4 + g5 + g6 + g7 + g8, g9, "translate"@);
    lemma_lookup_append(g1 + g2 + g3 + g4 + g5 + g6 + g7 + g8 + g9, g10, "translate"@);
    lemma_lookup_append(g1 + g2 + g3 + g4 + g5 + g6 + g7 + g8 + g9 + g10, g11, "translate"@);
}

/// Where the `keybind` key stands in a written envelope.
proof fn lemma_base_lookup_keybind(b: BaseView)
    ensures
        obj_lookup(ser_base_pairs(b), "keybind"@) is None,
{
    let g1 = opt_bool_pairs("bold"@, b.bold);
    let g2 = opt_bool_pairs("italic"@, b.italic);
    let g3 = opt_bool_pairs("underlined"@, b.underlined);
    let g4 = opt_bool_pairs("strikethrough"@, b.strikethrough);
    let g5 = opt_bool_pairs("obfuscated"@, b.obfuscated);
    let g6: Seq<(Seq<char>, JsonV)> = match b.font {
        Some(id) => seq![("font"@, JsonV::Str(id.fulled()))],
        None => Seq::empty(),
    };
    let g7: Seq<(Seq<char>, JsonV)> = match b.color {
        Some(c) => seq![("color"@, JsonV::Str(color_wire(c)))],
        None => Seq::empty(),
    };
    let g8 = opt_str_pairs("insertion"@, b.insertion);
    let g9: Seq<(Seq<char>, JsonV)> = if b.extra.len() == 0 {
        Seq::empty()
    } else {
        seq![("extra"@, JsonV::Arr(ser_comp_seq(b.extra)))]
    };
    let g10: Seq<(Seq<char>, JsonV)> = match b.click_event {
        Some(e) => seq![("clickEvent"@, ser_click(e))],
        None => Seq::empty(),
    };
    let g11: Seq<(Seq<char>, JsonV)> = match b.hover_event {
        Some(h) => seq![("hoverEvent"@, ser_hover(h))],
        None => Seq::empty(),
    };
    assert(ser_base_pairs(b) == g1 + g2 + g3 + g4 + g5 + g6 + g7 + g8 + g9 + g10 + g11);
    lemma_key_facts();
    lemma_lookup_opt_seg(g1, "bold"@, "keybind"@);
    lemma_lookup_opt_seg(g2, "italic"@, "keybind"@);
    lemma_lookup_opt_seg(g3, "underlined"@, "keybind"@);
    lemma_lookup_opt_seg(g4, "strikethrough"@, "keybind"@);
    lemma_lookup_opt_seg(g5, "obfuscated"@, "keybind"@);
    lemma_lookup_opt_seg(g6, "font"@, "keybind"@);
    lemma_lookup_opt_seg(g7, "color"@, "keybind"@);
    lemma_lookup_opt_seg(g8, "insertion"@, "keybind"@);
    lemma_lookup_opt_seg(g9, "extra"@, "keybind"@);
    lemma_lookup_opt_seg(g10, "clickEvent"@, "keybind"@);
    lemma_lookup_opt_seg(g11, "hoverEvent"@, "keybind"@);
    lemma_lookup_append(g1, g2, "keybind"@);
    lemma_lookup_append(g1 + g2, g3, "keybind"@);
    lemma_lookup_append(g1 + g2 + g3, g4, "keybind"@);
    lemma_lookup_append(g1 + g2 + g3 + g4, g5, "keybind"@);
    lemma_lookup_append(g1 + g2 + g3 + g4 + g5, g6, "keybind"@);
    lemma_lookup_append(g1 + g2 + g3 + g4 + g5 + g6, g7, "keybind"@);
    lemma_lookup_append(g1 + g2 + g3 + g4 + g5 + g6 + g7, g8, "keybind"@);
    lemma_lookup_append(g1 + g2 + g3 + g4 + g5 + g6 + g7 + g8, g9, "keybind"@);
    lemma_lookup_append(g1 + g2 + g3 + g4 + g5 + g6 + g7 + g8 + g9, g10, "keybind"@);
    lemma_lookup_append(g1 + g2 + g3 + g4 + g5 + g6 + g7 + g8 + g9 + g10, g11, "keybind"@);
}

/// Where the `score` key stands in a written envelope.
proof fn lemma_base_lookup_score(b: BaseView)
    ensures
        obj_lookup(ser_base_pairs(b), "score"@) is None,
{
    let g1 = opt_bool_pairs("bold"@, b.bold);
    let g2 = opt_bool_pairs("italic"@, b.italic);
    let g3 = opt_bool_pairs("underlined"@, b.underlined);
    let g4 = opt_bool_pairs("strikethrough"@, b.strikethrough);
    let g5 = opt_bool_pairs("obfuscated"@, b.obfuscated);
    let g6: Seq<(Seq<char>, JsonV)> = match b.font {
        Some(id) => seq![("font"@, JsonV::Str(id.fulled()))],
        None => Seq::empty(),
    };
    let g7: Seq<(Seq<char>, JsonV)> = match b.color {
        Some(c) => seq![("color"@, JsonV::Str(color_wire(c)))],
        None => Seq::empty(),
    };
    let g8 = opt_str_pairs("insertion"@, b.insertion);
    let g9: Seq<(Seq<char>, JsonV)> = if b.extra.len() == 0 {
        Seq::empty()
    } else {
        seq![("extra"@, JsonV::Arr(ser_comp_seq(b.extra)))]
    };
    let g10: Seq<(Seq<char>, JsonV)> = match b.click_event {
        Some(e) => seq![("clickEvent"@, ser_click(e))],
        None => Seq::empty(),
    };
    let g11: Seq<(Seq<char>, JsonV)> = match b.hover_event {
        Some(h) => seq![("hoverEvent"@, ser_hover(h))],
        None => Seq::empty(),
    };
    assert(ser_base_pairs(b) == g1 + g2 + g3 + g4 + g5 + g6 + g7 + g8 + g9 + g10 + g11);
    lemma_key_facts();
    lemma_lookup_opt_seg(g1, "bold"@, "score"@);
    lemma_lookup_opt_seg(g2, "italic"@, "score"@);
    lemma_lookup_opt_seg(g3, "underlined"@, "score"@);
    lemma_lookup_opt_seg(g4, "strikethrough"@, "score"@);
    lemma_lookup_opt_seg(g5, "obfuscated"@, "score"@);
    lemma_lookup_opt_seg(g6, "font"@, "score"@);
    lemma_lookup_opt_seg(g7, "color"@, "score"@);
    lemma_lookup_opt_seg(g8, "insertion"@, "score"@);
    lemma_lookup_opt_seg(g9, "extra"@, "score"@);
    lemma_lookup_opt_seg(g10, "clickEvent"@, "score"@);
    lemma_lookup_opt_seg(g11, "hoverEvent"@, "score"@);
    lemma_lookup_append(g1, g2, "score"@);
    lemma_lookup_append(g1 + g2, g3, "score"@);
    lemma_lookup_append(g1 + g2 + g3, g4, "score"@);
    lemma_lookup_append(g1 + g2 + g3 + g4, g5, "score"@);
    lemma_lookup_append(g1 + g2 + g3 + g4 + g5, g6, "score"@);
    lemma_lookup_append(g1 + g2 + g3 + g4 + g5 + g6, g7, "score"@);
    lemma_lookup_append(g1 + g2 + g3 + g4 + g5 + g6 + g7, g8, "score"@);
    lemma_lookup_append(g1 + g2 + g3 + g4 + g5 + g6 + g7 + g8, g9, "score"@);
    lemma_lookup_append(g1 + g2 + g3 + g4 + g5 + g6 + g7 + g8 + g9, g10, "score"@);
    lemma_lookup_append(g1 + g2 + g3 + g4 + g5 + g6 + g7 + g8 + g9 + g10, g11, "score"@);
}

/// Where the `selector` key stands in a written envelope.
proof fn lemma_base_lookup_selector(b: BaseView)
    ensures
        obj_lookup(ser_base_pairs(b), "selector"@) is None,
{
    let g1 = opt_bool_pairs("bold"@, b.bold);
    let g2 = opt_bool_pairs("italic"@, b.italic);
    let g3 = opt_bool_pairs("underlined"@, b.underlined);
    let g4 = opt_bool_pairs("strikethrough"@, b.strikethrough);
    let g5 = opt_bool_pairs("obfuscated"@, b.obfuscated);
    let g6: Seq<(Seq<char>, JsonV)> = match b.font {
        Some(id) => seq![("font"@, JsonV::Str(id.fulled()))],
        None => Seq::empty(),
    };
    let g7: Seq<(Seq<char>, JsonV)> = match b.color {
        Some(c) => seq![("color"@, JsonV::Str(color_wire(c)))],
        None => Seq::empty(),
    };
    let g8 = opt_str_pairs("insertion"@, b.insertion);
    let g9: Seq<(Seq<char>, JsonV)> = if b.extra.len() == 0 {
        Seq::empty()
    } else {
        seq![("extra"@, JsonV::Arr(ser_comp_seq(b.extra)))]
    };
    let g10: Seq<(Seq<char>, JsonV)> = match b.click_event {
        Some(e) => seq![("clickEvent"@, ser_click(e))],
        None => Seq::empty(),
    };
    let g11: Seq<(Seq<char>, JsonV)> = match b.hover_event {
        Some(h) => seq![("hoverEvent"@, ser_hover(h))],
        None => Seq::empty(),
    };
    assert(ser_base_pairs(b) == g1 + g2 + g3 + g4 + g5 + g6 + g7 + g8 + g9 + g10 + g11);
    lemma_key_facts();
    lemma_lookup_opt_seg(g1, "bold"@, "selector"@);
    lemma_lookup_opt_seg(g2, "italic"@, "selector"@);
    lemma_lookup_opt_seg(g3, "underlined"@, "selector"@);
    lemma_lookup_opt_seg(g4, "strikethrough"@, "selector"@);
    lemma_lookup_opt_seg(g5, "obfuscated"@, "selector"@);
    lemma_lookup_opt_seg(g6, "font"@, "selector"@);
    lemma_lookup_opt_seg(g7, "color"@, "selector"@);
    lemma_lookup_opt_seg(g8, "insertion"@, "selector"@);
    lemma_lookup_opt_seg(g9, "extra"@, "selector"@);
    lemma_lookup_opt_seg(g10, "clickEvent"@, "selector"@);
    lemma_lookup_opt_seg(g11, "hoverEvent"@, "selector"@);
    lemma_lookup_append(g1, g2, "selector"@);
    lemma_lookup_append(g1 + g2, g3, "selector"@);
    lemma_lookup_append(g1 + g2 + g3, g4, "selector"@);
    lemma_lookup_append(g1 + g2 + g3 + g4, g5, "selector"@);
    lemma_lookup_append(g1 + g2 + g3 + g4 + g5, g6, "selector"@);
    lemma_lookup_append(g1 + g2 + g3 + g4 + g5 + g6, g7, "selector"@);
    lemma_lookup_append(g1 + g2 + g3 + g4 + g5 + g6 + g7, g8, "selector"@);
    lemma_lookup_append(g1 + g2 + g3 + g4 + g5 + g6 + g7 + g8, g9, "selector"@);
    lemma_lookup_append(g1 + g2 + g3 + g4 + g5 + g6 + g7 + g8 + g9, g10, "selector"@);
    lemma_lookup_append(g1 + g2 + g3 + g4 + g5 + g6 + g7 + g8 + g9 + g10, g11, "selector"@);
}

/// Where the `with` key stands in a written envelope.
proof fn lemma_base_lookup_with(b: BaseView)
    ensures
        obj_lookup(ser_base_pairs(b), "with"@) is None,
{
    let g1 = opt_bool_pairs("bold"@, b.bold);
    let g2 = opt_bool_pairs("italic"@, b.italic);
    let g3 = opt_bool_pairs("underlined"@, b.underlined);
    let g4 = opt_bool_pairs("strikethrough"@, b.strikethrough);
    let g5 = opt_bool_pairs("obfuscated"@, b.obfuscated);
    let g6: Seq<(Seq<char>, JsonV)> = match b.font {
        Some(id) => seq![("font"@, JsonV::Str(id.fulled()))],
        None => Seq::empty(),
    };
    let g7: Seq<(Seq<char>, JsonV)> = match b.color {
        Some(c) => seq![("color"@, JsonV::Str(color_wire(c)))],
        None => Seq::empty(),
    };
    let g8 = opt_str_pairs("insertion"@, b.insertion);
    let g9: Seq<(Seq<char>, JsonV)> = if b.extra.len() == 0 {
        Seq::empty()
    } else {
        seq![("extra"@, JsonV::Arr(ser_comp_seq(b.extra)))]
    };
    let g10: Seq<(Seq<char>, JsonV)> = match b.click_event {
        Some(e) => seq![("clickEvent"@, ser_click(e))],
        None => Seq::empty(),
    };
    let g11: Seq<(Seq<char>, JsonV)> = match b.hover_event {
        Some(h) => seq![("hoverEvent"@, ser_hover(h))],
        None => Seq::empty(),
    };
    assert(ser_base_pairs(b) == g1 + g2 + g3 + g4 + g5 + g6 + g7 + g8 + g9 + g10 + g11);
    lemma_key_facts();
    lemma_lookup_opt_seg(g1, "bold"@, "with"@);
    lemma_lookup_opt_seg(g2, "italic"@, "with"@);
    lemma_lookup_opt_seg(g3, "underlined"@, "with"@);
    lemma_lookup_opt_seg(g4, "strikethrough"@, "with"@);
    lemma_lookup_opt_seg(g5, "obfuscated"@, "with"@);
    lemma_lookup_opt_seg(g6, "font"@, "with"@);
    lemma_lookup_opt_seg(g7, "color"@, "with"@);
    lemma_lookup_opt_seg(g8, "insertion"@, "with"@);
    lemma_lookup_opt_seg(g9, "extra"@, "with"@);
    lemma_lookup_opt_seg(g10, "clickEvent"@, "with"@);
    lemma_lookup_opt_seg(g11, "hoverEvent"@, "with"@);
    lemma_lookup_append(g1, g2, "with"@);
    lemma_lookup_append(g1 + g2, g3, "with"@);
    lemma_lookup_append(g1 + g2 + g3, g4, "with"@);
    lemma_lookup_append(g1 + g2 + g3 + g4, g5, "with"@);
    lemma_lookup_append(g1 + g2 + g3 + g4 + g5, g6, "with"@);
    lemma_lookup_append(g1 + g2 + g3 + g4 + g5 + g6, g7, "with"@);
    lemma_lookup_append(g1 + g2 + g3 + g4 + g5 + g6 + g7, g8, "with"@);
    lemma_lookup_append(g1 + g2 + g3 + g4 + g5 + g6 + g7 + g8, g9, "with"@);
    lemma_lookup_append(g1 + g2 + g3 + g4 + g5 + g6 + g7 + g8 + g9, g10, "with"@);
    lemma_lookup_append(g1 + g2 + g3 + g4 + g5 + g6 + g7 + g8 + g9 + g10, g11, "with"@);
}

/// Where each field of a written envelope is found, and that no
/// discriminating key occurs in it.
pub proof fn lemma_base_lookup(b: BaseView)
    ensures
        obj_lookup(ser_base_pairs(b), "bold"@) == (match b.bold {
            Some(x) => Some(JsonV::Bool(x)),
            None => None::<JsonV>,
        }),
        obj_lookup(ser_base_pairs(b), "italic"@) == (match b.italic {
            Some(x) => Some(JsonV::Bool(x)),
            None => None::<JsonV>,
        }),
        obj_lookup(ser_base_pairs(b), "underlined"@) == (match b.underlined {
            Some(x) => Some(JsonV::Bool(x)),
            None => None::<JsonV>,
        }),
        obj_lookup(ser_base_pairs(b), "strikethrough"@) == (match b.strikethrough {
            Some(x) => Some(JsonV::Bool(x)),
            None => None::<JsonV>,
        }),
        obj_lookup(ser_base_pairs(b), "obfuscated"@) == (match b.obfuscated {
            Some(x) => Some(JsonV::Bool(x)),
            None => None::<JsonV>,
        }),
        obj_lookup(ser_base_pairs(b), "font"@) == (match b.font {
            Some(id) => Some(JsonV::Str(id.fulled())),
            None => None::<JsonV>,
        }),
        obj_lookup(ser_base_pairs(b), "color"@) == (match b.color {
            Some(c) => Some(JsonV::Str(color_wire(c))),
            None => None::<JsonV>,
        }),
        obj_lookup(ser_base_pairs(b), "insertion"@) == (match b.insertion {
            Some(x) => Some(JsonV::Str(x)),
            None => None::<JsonV>,
        }),
        obj_lookup(ser_base_pairs(b), "extra"@) == (if b.extra.len() == 0 {
            None::<JsonV>
        } else {
            Some(JsonV::Arr(ser_comp_seq(b.extra)))
        }),
        obj_lookup(ser_base_pairs(b), "clickEvent"@) == (match b.click_event {
            Some(e) => Some(ser_click(e)),
            None => None::<JsonV>,
        }),
        obj_lookup(ser_base_pairs(b), "hoverEvent"@) == (match b.hover_event {
            Some(h) => Some(ser_hover(h)),
            None => None::<JsonV>,
        }),
        obj_lookup(ser_base_pairs(b), "text"@) is None,
        obj_lookup(ser_base_pairs(b), "translate"@) is None,
        obj_lookup(ser_base_pairs(b), "keybind"@) is None,
        obj_lookup(ser_base_pairs(b), "score"@) is None,
        obj_lookup(ser_base_pairs(b), "selector"@) is None,
        obj_lookup(ser_base_pairs(b), "with"@) is None,
{
    lemma_base_lookup_bold(b);
    lemma_base_lookup_italic(b);
    lemma_base_lookup_underlined(b);
    lemma_base_lookup_strikethrough(b);
    lemma_base_lookup_obfuscated(b);
    lemma_base_lookup_font(b);
    lemma_base_lookup_color(b);
    lemma_base_lookup_insertion(b);
    lemma_base_lookup_extra(b);
    lemma_base_lookup_click(b);
    lemma_base_lookup_hover(b);
    lemma_base_lookup_text(b);
    lemma_base_lookup_translate(b);
    lemma_base_lookup_keybind(b);
    lemma_base_lookup_score(b);
    lemma_base_lookup_selector(b);
    lemma_base_lookup_with(b);
}

/// Where the two fields of a tagged event object are found.
proof fn lemma_lookup_tag(a: Seq<char>, v: JsonV)
    ensures
        obj_lookup(tag_pairs(a, v), "action"@) == Some(JsonV::Str(a)),
        obj_lookup(tag_pairs(a, v), "value"@) == Some(v),
{
    lemma_key_facts();
    let ps = tag_pairs(a, v);
    assert(ps =~= seq![("action"@, JsonV::Str(a))] + seq![("value"@, v)]);
    lemma_lookup_single("action"@, JsonV::Str(a), "action"@);
    lemma_lookup_single("action"@, JsonV::Str(a), "value"@);
    lemma_lookup_single("value"@, v, "value"@);
    lemma_lookup_append(seq![("action"@, JsonV::Str(a))], seq![("value"@, v)], "action"@);
    lemma_lookup_append(seq![("action"@, JsonV::Str(a))], seq![("value"@, v)], "value"@);
}

/// A written click event reads back as the same value.
proof fn lemma_rt_click(e: ClickView)
    ensures
        deser_click(ser_click(e)) == Some(e),
{
    lemma_key_facts();
    match e {
        ClickView::OpenUrl(s) => {
            lemma_lookup_tag("open_url"@, JsonV::Str(s));
        },
        ClickView::RunCommand(s) => {
            lemma_lookup_tag("run_command"@, JsonV::Str(s));
        },
        ClickView::SuggestCommand(s) => {
            lemma_lookup_tag("suggest_command"@, JsonV::Str(s));
        },
        ClickView::ChangePage(n) => {
            lemma_lookup_tag("change_page"@, JsonV::UInt(n as u64));
        },
        ClickView::CopyToClipboard(s) => {
            lemma_lookup_tag("copy_to_clipboard"@, JsonV::Str(s));
        },
    }
}

/// A written score whose name is a literal reads back as the same value.
proof fn lemma_rt_score(sv: ScoreView)
    requires
        sv.name is Literal,
    ensures
        deser_score_obj(ser_score(sv)) == Some(sv),
{
    lemma_key_facts();
    let n1 = seq![("name"@, JsonV::Str(ser_score_name(sv.name)))];
    let n2 = seq![("objective"@, JsonV::Str(sv.objective))];
    let n3: Seq<(Seq<char>, JsonV)> = if sv.value is Null {
        Seq::empty()
    } else {
        seq![("value"@, sv.value)]
    };
    let n12 = seq![
        ("name"@, JsonV::Str(ser_score_name(sv.name))),
        ("objective"@, JsonV::Str(sv.objective)),
    ];
    assert(ser_score(sv) == JsonV::Obj(n1 + n2 + n3)) by {
        assert(n12 =~= n1 + n2);
    }
    lemma_lookup_opt_seg(n1, "name"@, "name"@);
    lemma_lookup_opt_seg(n1, "name"@, "objective"@);
    lemma_lookup_opt_seg(n1, "name"@, "value"@);
    lemma_lookup_opt_seg(n2, "objective"@, "name"@);
    lemma_lookup_opt_seg(n2, "objective"@, "objective"@);
    lemma_lookup_opt_seg(n2, "objective"@, "value"@);
    lemma_lookup_opt_seg(n3, "value"@, "name"@);
    lemma_lookup_opt_seg(n3, "value"@, "objective"@);
    lemma_lookup_opt_seg(n3, "value"@, "value"@);
    lemma_lookup_append(n1, n2, "name"@);
    lemma_lookup_append(n1, n2, "objective"@);
    lemma_lookup_append(n1, n2, "value"@);
    lemma_lookup_append(n1 + n2, n3, "name"@);
    lemma_lookup_append(n1 + n2, n3, "objective"@);
    lemma_lookup_append(n1 + n2, n3, "value"@);
}

/// A written hover event reads back as the same value.
proof fn lemma_rt_hover(h: HoverView)
    requires
        hover_wf(h),
    ensures
        deser_hover(ser_hover(h)) == Some(h),
    decreases h, 0int,
{
    lemma_key_facts();
    match h {
        HoverView::ShowText(HoverTextView::Component(t)) => {
            lemma_lookup_tag("show_text"@, JsonV::Obj(ser_text_pairs(*t)));
            lemma_rt_text_pairs(*t);
        },
        HoverView::ShowText(HoverTextView::Plain(s)) => {
            lemma_lookup_tag("show_text"@, JsonV::Str(s));
        },
        HoverView::ShowItem(s) => {
            lemma_lookup_tag("show_item"@, JsonV::Str(s));
        },
        HoverView::ShowEntity(s) => {
            lemma_lookup_tag("show_entity"@, JsonV::Str(s));
        },
    }
}

/// A written envelope reads back as the same value out of any object
/// that carries no other occurrence of an envelope key before it.
#[verifier::rlimit(100)]
proof fn lemma_rt_base(pre: Seq<(Seq<char>, JsonV)>, b: BaseView)
    requires
        base_wf(b),
        obj_lookup(pre, "bold"@) is None,
        obj_lookup(pre, "italic"@) is None,
        obj_lookup(pre, "underlined"@) is None,
        obj_lookup(pre, "strikethrough"@) is None,
        obj_lookup(pre, "obfuscated"@) is None,
        obj_lookup(pre, "font"@) is None,
        obj_lookup(pre, "color"@) is None,
        obj_lookup(pre, "insertion"@) is None,
        obj_lookup(pre, "extra"@) is None,
        obj_lookup(pre, "clickEvent"@) is None,
        obj_lookup(pre, "hoverEvent"@) is None,
    ensures
        deser_base(pre + ser_base_pairs(b)) == Some(b),
    decreases b, 1int,
{
    lemma_key_facts();
    lemma_base_lookup(b);
    let sbp = ser_base_pairs(b);
    let ps = pre + sbp;
    lemma_lookup_append(pre, sbp, "bold"@);
    lemma_lookup_append(pre, sbp, "italic"@);
    lemma_lookup_append(pre, sbp, "underlined"@);
    lemma_lookup_append(pre, sbp, "strikethrough"@);
    lemma_lookup_append(pre, sbp, "obfuscated"@);
    lemma_lookup_append(pre, sbp, "font"@);
    lemma_lookup_append(pre, sbp, "color"@);
    lemma_lookup_append(pre, sbp, "insertion"@);
    lemma_lookup_append(pre, sbp, "extra"@);
    lemma_lookup_append(pre, sbp, "clickEvent"@);
    lemma_lookup_append(pre, sbp, "hoverEvent"@);
    match b.font {
        Some(id) => {
            crate::identifier::lemma_fulled_of_parts(id.key, id.value);
            crate::identifier::lemma_fulled_unique(id, id.fulled());
            assert(split_id(id.fulled()) == id);
        },
        None => {},
    }
    match b.color {
        Some(c) => {
            crate::color::lemma_color_round_trip(c);
        },
        None => {},
    }
    if b.extra.len() == 0 {
        assert(b.extra =~= Seq::<CompView>::empty());
    } else {
        assert(decreases_to!(b => b.extra));
        lemma_rt_seq(b.extra);
    }
    match b.click_event {
        Some(e) => {
            lemma_rt_click(e);
        },
        None => {},
    }
    match b.hover_event {
        Some(h) => {
            lemma_rt_hover(h);
        },
        None => {},
    }
    assert(deser_base(ps) == Some(b));
}

/// A written text component object reads back as the same value.
proof fn lemma_rt_text_pairs(t: TextView)
    requires
        text_wf(t),
    ensures
        deser_text(ser_text_pairs(t)) == Some(t),
    decreases t, 2int,
{
    lemma_key_facts();
    let pre = seq![("text"@, JsonV::Str(t.text))];
    lemma_lookup_opt_seg(pre, "text"@, "text"@);
    lemma_lookup_opt_seg(pre, "text"@, "bold"@);
    lemma_lookup_opt_seg(pre, "text"@, "italic"@);
    lemma_lookup_opt_seg(pre, "text"@, "underlined"@);
    lemma_lookup_opt_seg(pre, "text"@, "strikethrough"@);
    lemma_lookup_opt_seg(pre, "text"@, "obfuscated"@);
    lemma_lookup_opt_seg(pre, "text"@, "font"@);
    lemma_lookup_opt_seg(pre, "text"@, "color"@);
    lemma_lookup_opt_seg(pre, "text"@, "insertion"@);
    lemma_lookup_opt_seg(pre, "text"@, "extra"@);
    lemma_lookup_opt_seg(pre, "text"@, "clickEvent"@);
    lemma_lookup_opt_seg(pre, "text"@, "hoverEvent"@);
    lemma_rt_base(pre, t.base);
    lemma_lookup_append(pre, ser_base_pairs(t.base), "text"@);
}

/// Written children read back as the same values, element by element.
proof fn lemma_rt_seq(s: Seq<CompView>)
    requires
        forall|i: int| 0 <= i < s.len() ==> comp_wf(#[trigger] s[i]),
    ensures
        deser_comp_seq(ser_comp_seq(s)) == Some(s),
    decreases s, 3int,
{
    if s.len() > 0 {
        lemma_rt_comp(s[0]);
        assert forall|i: int| 0 <= i < s.drop_first().len() implies comp_wf(
            #[trigger] s.drop_first()[i],
        ) by {
            assert(s.drop_first()[i] == s[i + 1]);
        }
        lemma_rt_seq(s.drop_first());
        let w = ser_comp_seq(s);
        assert(w[0] == ser_comp(s[0]));
        assert(w.drop_first() =~= ser_comp_seq(s.drop_first()));
        assert(seq![s[0]] + s.drop_first() =~= s);
    }
}

/// Writing any well-formed component tree and reading the result back
/// yields the same value: the round trip of the wire mapping.
pub proof fn lemma_component_round_trip(c: CompView)
    requires
        comp_wf(c),
    ensures
        deser_comp(ser_comp(c)) == Some(c),
    decreases c, 4int,
{
    lemma_rt_comp(c);
}

proof fn lemma_rt_comp(c: CompView)
    requires
        comp_wf(c),
    ensures
        deser_comp(ser_comp(c)) == Some(c),
    decreases c, 3int,
{
    lemma_key_facts();
    match c {
        CompView::Text(t) => {
            lemma_rt_text_pairs(t);
        },
        CompView::Translatable(t) => {
            lemma_rt_var_translatable(t);
        },
        CompView::KeyBind(k) => {
            lemma_rt_var_keybind(k);
        },
        CompView::Score(sc) => {
            lemma_rt_var_score(sc);
        },
        CompView::Selector(se) => {
            lemma_rt_var_selector(se);
        },
        CompView::Base(b) => {
            lemma_base_lookup(b);
            assert(Seq::<(Seq<char>, JsonV)>::empty() + ser_base_pairs(b) =~= ser_base_pairs(b));
            lemma_rt_base(Seq::empty(), b);
        },
    }
}

/// The translatable case of the round trip.
#[verifier::rlimit(100)]
proof fn lemma_rt_var_translatable(t: TranslatableView)
    requires
        comp_wf(CompView::Translatable(t)),
    ensures
        deser_comp(ser_comp(CompView::Translatable(t))) == Some(CompView::Translatable(t)),
    decreases t, 2int,
{
    lemma_key_facts();
    let d = seq![("translate"@, JsonV::Str(t.translate))];
    let w: Seq<(Seq<char>, JsonV)> = if t.args.len() == 0 {
        Seq::empty()
    } else {
        seq![("with"@, JsonV::Arr(ser_comp_seq(t.args)))]
    };
    let sbp = ser_base_pairs(t.base);
    let ps = d + w + sbp;
    assert(ser_comp(CompView::Translatable(t)) == JsonV::Obj(ps));
    lemma_base_lookup(t.base);
    lemma_lookup_opt_seg(d, "translate"@, "text"@);
    lemma_lookup_opt_seg(w, "with"@, "text"@);
    lemma_lookup_opt_seg(d, "translate"@, "translate"@);
    lemma_lookup_opt_seg(w, "with"@, "translate"@);
    lemma_lookup_opt_seg(d, "translate"@, "with"@);
    lemma_lookup_opt_seg(w, "with"@, "with"@);
    lemma_lookup_opt_seg(d, "translate"@, "bold"@);
    lemma_lookup_opt_seg(w, "with"@, "bold"@);
    lemma_lookup_opt_seg(d, "translate"@, "italic"@);
    lemma_lookup_opt_seg(w, "with"@, "italic"@);
    lemma_lookup_opt_seg(d, "translate"@, "underlined"@);
    lemma_lookup_opt_seg(w, "with"@, "underlined"@);
    lemma_lookup_opt_seg(d, "translate"@, "strikethrough"@);
    lemma_lookup_opt_seg(w, "with"@, "strikethrough"@);
    lemma_lookup_opt_seg(d, "translate"@, "obfuscated"@);
    lemma_lookup_opt_seg(w, "with"@, "obfuscated"@);
    lemma_lookup_opt_seg(d, "translate"@, "font"@);
    lemma_lookup_opt_seg(w, "with"@, "font"@);
    lemma_lookup_opt_seg(d, "translate"@, "color"@);
    lemma_lookup_opt_seg(w, "with"@, "color"@);
    lemma_lookup_opt_seg(d, "translate"@, "insertion"@);
    lemma_lookup_opt_seg(w, "with"@, "insertion"@);
    lemma_lookup_opt_seg(d, "translate"@, "extra"@);
    lemma_lookup_opt_seg(w, "with"@, "extra"@);
    lemma_lookup_opt_seg(d, "translate"@, "clickEvent"@);
    lemma_lookup_opt_seg(w, "with"@, "clickEvent"@);
    lemma_lookup_opt_seg(d, "translate"@, "hoverEvent"@);
    lemma_lookup_opt_seg(w, "with"@, "hoverEvent"@);
    lemma_lookup_append(d, w, "text"@);
    lemma_lookup_append(d, w, "translate"@);
    lemma_lookup_append(d, w, "with"@);
    lemma_lookup_append(d, w, "bold"@);
    lemma_lookup_append(d, w, "italic"@);
    lemma_lookup_append(d, w, "underlined"@);
    lemma_lookup_append(d, w, "strikethrough"@);
    lemma_lookup_append(d, w, "obfuscated"@);
    lemma_lookup_append(d, w, "font"@);
    lemma_lookup_append(d, w, "color"@);
    lemma_lookup_append(d, w, "insertion"@);
    lemma_lookup_append(d, w, "extra"@);
    lemma_lookup_append(d, w, "clickEvent"@);
    lemma_lookup_append(d, w, "hoverEvent"@);
    lemma_lookup_append(d + w, sbp, "text"@);
    lemma_lookup_append(d + w, sbp, "translate"@);
    lemma_lookup_append(d + w, sbp, "with"@);
    lemma_rt_base(d + w, t.base);
    if t.args.len() == 0 {
        assert(t.args =~= Seq::<CompView>::empty());
    } else {
        lemma_rt_seq(t.args);
    }
    assert(deser_text(ps) is None);
    assert(deser_translatable(ps) == Some(t));
}

/// The key bind case of the round trip.
proof fn lemma_rt_var_keybind(k: KeyBindView)
    requires
        comp_wf(CompView::KeyBind(k)),
    ensures
        deser_comp(ser_comp(CompView::KeyBind(k))) == Some(CompView::KeyBind(k)),
    decreases k, 2int,
{
    lemma_key_facts();
    let d = seq![("keybind"@, JsonV::Str(k.key_bind))];
    let sbp = ser_base_pairs(k.base);
    let ps = d + sbp;
    lemma_base_lookup(k.base);
    lemma_lookup_opt_seg(d, "keybind"@, "text"@);
    lemma_lookup_opt_seg(d, "keybind"@, "translate"@);
    lemma_lookup_opt_seg(d, "keybind"@, "keybind"@);
    lemma_lookup_opt_seg(d, "keybind"@, "bold"@);
    lemma_lookup_opt_seg(d, "keybind"@, "italic"@);
    lemma_lookup_opt_seg(d, "keybind"@, "underlined"@);
    lemma_lookup_opt_seg(d, "keybind"@, "strikethrough"@);
    lemma_lookup_opt_seg(d, "keybind"@, "obfuscated"@);
    lemma_lookup_opt_seg(d, "keybind"@, "font"@);
    lemma_lookup_opt_seg(d, "keybind"@, "color"@);
    lemma_lookup_opt_seg(d, "keybind"@, "insertion"@);
    lemma_lookup_opt_seg(d, "keybind"@, "extra"@);
    lemma_lookup_opt_seg(d, "keybind"@, "clickEvent"@);
    lemma_lookup_opt_seg(d, "keybind"@, "hoverEvent"@);
    lemma_lookup_append(d, sbp, "text"@);
    lemma_lookup_append(d, sbp, "translate"@);
    lemma_lookup_append(d, sbp, "keybind"@);
    lemma_rt_base(d, k.base);
    assert(deser_text(ps) is None);
    assert(deser_translatable(ps) is None);
    assert(deser_keybind(ps) == Some(k));
}

/// The score case of the round trip.
proof fn lemma_rt_var_score(sc: ScoreCompView)
    requires
        comp_wf(CompView::Score(sc)),
    ensures
        deser_comp(ser_comp(CompView::Score(sc))) == Some(CompView::Score(sc)),
    decreases sc, 2int,
{
    lemma_key_facts();
    let d = seq![("score"@, ser_score(sc.score))];
    let sbp = ser_base_pairs(sc.base);
    let ps = d + sbp;
    lemma_base_lookup(sc.base);
    lemma_lookup_opt_seg(d, "score"@, "text"@);
    lemma_lookup_opt_seg(d, "score"@, "translate"@);
    lemma_lookup_opt_seg(d, "score"@, "keybind"@);
    lemma_lookup_opt_seg(d, "score"@, "score"@);
    lemma_lookup_opt_seg(d, "score"@, "bold"@);
    lemma_lookup_opt_seg(d, "score"@, "italic"@);
    lemma_lookup_opt_seg(d, "score"@, "underlined"@);
    lemma_lookup_opt_seg(d, "score"@, "strikethrough"@);
    lemma_lookup_opt_seg(d, "score"@, "obfuscated"@);
    lemma_lookup_opt_seg(d, "score"@, "font"@);
    lemma_lookup_opt_seg(d, "score"@, "color"@);
    lemma_lookup_opt_seg(d, "score"@, "insertion"@);
    lemma_lookup_opt_seg(d, "score"@, "extra"@);
    lemma_lookup_opt_seg(d, "score"@, "clickEvent"@);
    lemma_lookup_opt_seg(d, "score"@, "hoverEvent"@);
    lemma_lookup_append(d, sbp, "text"@);
    lemma_lookup_append(d, sbp, "translate"@);
    lemma_lookup_append(d, sbp, "keybind"@);
    lemma_lookup_append(d, sbp, "score"@);
    lemma_rt_base(d, sc.base);
    lemma_rt_score(sc.score);
    assert(deser_text(ps) is None);
    assert(deser_translatable(ps) is None);
    assert(deser_keybind(ps) is None);
    assert(deser_score_comp(ps) == Some(sc));
}

/// The selector case of the round trip.
proof fn lemma_rt_var_selector(se: SelectorView)
    requires
        comp_wf(CompView::Selector(se)),
    ensures
        deser_comp(ser_comp(CompView::Selector(se))) == Some(CompView::Selector(se)),
    decreases se, 2int,
{
    lemma_key_facts();
    let d = seq![("selector"@, JsonV::Str(se.selector))];
    let sbp = ser_base_pairs(se.base);
    let ps = d + sbp;
    lemma_base_lookup(se.base);
    lemma_lookup_opt_seg(d, "selector"@, "text"@);
    lemma_lookup_opt_seg(d, "selector"@, "translate"@);
    lemma_lookup_opt_seg(d, "selector"@, "keybind"@);
    lemma_lookup_opt_seg(d, "selector"@, "score"@);
    lemma_lookup_opt_seg(d, "selector"@, "selector"@);
    lemma_lookup_opt_seg(d, "selector"@, "bold"@);
    lemma_lookup_opt_seg(d, "selector"@, "italic"@);
    lemma_lookup_opt_seg(d, "selector"@, "underlined"@);
    lemma_lookup_opt_seg(d, "selector"@, "strikethrough"@);
    lemma_lookup_opt_seg(d, "selector"@, "obfuscated"@);
    lemma_lookup_opt_seg(d, "selector"@, "font"@);
    lemma_lookup_opt_seg(d, "selector"@, "color"@);
    lemma_lookup_opt_seg(d, "selector"@, "insertion"@);
    lemma_lookup_opt_seg(d, "selector"@, "extra"@);
    lemma_lookup_opt_seg(d, "selector"@, "clickEvent"@);
    lemma_lookup_opt_seg(d, "selector"@, "hoverEvent"@);
    lemma_lookup_append(d, sbp, "text"@);
    lemma_lookup_append(d, sbp, "translate"@);
    lemma_lookup_append(d, sbp, "keybind"@);
    lemma_lookup_append(d, sbp, "score"@);
    lemma_lookup_append(d, sbp, "selector"@);
    lemma_rt_base(d, se.base);
    assert(deser_text(ps) is None);
    assert(deser_translatable(ps) is None);
    assert(deser_keybind(ps) is None);
    assert(deser_score_comp(ps) is None);
    assert(deser_selector(ps) == Some(se));
}

} // verus!
