//! The component model: a tree of content variants (text, translatable,
//! key bind, score, selector, and a bare style-only base) sharing one
//! style envelope, with copy-on-write child lists.

use vstd::prelude::*;
use crate::color::{Color, ColorView};
use crate::identifier::{IdView, Identifier};
use crate::json::{Json, JsonV};

verus! {

/// A style or decoration kind, selecting one of the five independent
/// style booleans, or the whole-style reset.
#[derive(Clone, Copy, Debug, PartialEq, Eq, Structural)]
pub enum Style {
    Random,
    Bold,
    Strikethrough,
    Underlined,
    Italic,
    Reset,
}

/// A click action: the wire form is `{"action": <name>, "value": <payload>}`.
#[derive(Clone, Debug)]
pub enum ClickEvent {
    OpenUrl(String),
    RunCommand(String),
    SuggestCommand(String),
    ChangePage(usize),
    CopyToClipboard(String),
}

/// What a show-text hover carries: a full text component, or a plain string.
#[derive(Debug)]
pub enum HoverText {
    Component(Box<TextComponent>),
    Plain(String),
}

/// A hover action: the wire form is `{"action": <name>, "value": <payload>}`.
#[derive(Debug)]
pub enum HoverEvent {
    ShowText(HoverText),
    ShowItem(String),
    ShowEntity(String),
}

/// A score holder's name: a literal string, or a UUID given by its
/// 128-bit value and written in hyphenated form.
#[derive(Clone, Debug)]
pub enum ScoreName {
    Literal(String),
    Uuid(u128),
}

/// A scoreboard reference; `value` may be any wire value and is omitted
/// from the wire when null.
#[derive(Clone, Debug)]
pub struct Score {
    pub name: ScoreName,
    pub objective: String,
    pub value: Json,
}

/// An ordered child list that may stand for borrowed outside data. The
/// tag records whether the storage is owned; the first mutation turns a
/// borrowed list into an owned one, and later mutations keep it owned.
#[derive(Debug)]
pub struct CowList {
    owned: bool,
    items: Vec<Component>,
}

/// The shared style envelope of every component variant. An absent field
/// means "inherit from the rendering context".
#[derive(Debug)]
pub struct BaseComponent {
    pub bold: Option<bool>,
    pub italic: Option<bool>,
    pub underlined: Option<bool>,
    pub strikethrough: Option<bool>,
    pub obfuscated: Option<bool>,
    pub font: Option<Identifier>,
    pub color: Option<Color>,
    pub insertion: Option<String>,
    pub extra: CowList,
    pub click_event: Option<ClickEvent>,
    pub hover_event: Option<HoverEvent>,
}

#[derive(Debug)]
pub struct TextComponent {
    pub text: String,
    pub base: BaseComponent,
}

#[derive(Debug)]
pub struct TranslatableComponent {
    pub translate: String,
    pub with: CowList,
    pub base: BaseComponent,
}

#[derive(Debug)]
pub struct KeyBindComponent {
    pub key_bind: String,
    pub base: BaseComponent,
}

#[derive(Debug)]
pub struct ScoreComponent {
    pub score: Score,
    pub base: BaseComponent,
}

#[derive(Debug)]
pub struct SelectorComponent {
    pub selector: String,
    pub base: BaseComponent,
}

/// A node of the rich-text tree.
#[derive(Debug)]
pub enum Component {
    Text(TextComponent),
    Translatable(TranslatableComponent),
    KeyBind(KeyBindComponent),
    Score(ScoreComponent),
    Selector(SelectorComponent),
    Base(BaseComponent),
}

// ---------------------------------------------------------------------
// Abstract values.
// ---------------------------------------------------------------------

pub ghost enum ClickView {
    OpenUrl(Seq<char>),
    RunCommand(Seq<char>),
    SuggestCommand(Seq<char>),
    ChangePage(usize),
    CopyToClipboard(Seq<char>),
}

pub ghost enum HoverTextView {
    Component(Box<TextView>),
    Plain(Seq<char>),
}

pub ghost enum HoverView {
    ShowText(HoverTextView),
    ShowItem(Seq<char>),
    ShowEntity(Seq<char>),
}

pub ghost enum ScoreNameView {
    Literal(Seq<char>),
    Uuid(u128),
}

pub ghost struct ScoreView {
    pub name: ScoreNameView,
    pub objective: Seq<char>,
    pub value: JsonV,
}

pub ghost struct BaseView {
    pub bold: Option<bool>,
    pub italic: Option<bool>,
    pub underlined: Option<bool>,
    pub strikethrough: Option<bool>,
    pub obfuscated: Option<bool>,
    pub font: Option<IdView>,
    pub color: Option<ColorView>,
    pub insertion: Option<Seq<char>>,
    pub extra: Seq<CompView>,
    pub click_event: Option<ClickView>,
    pub hover_event: Option<HoverView>,
}

pub ghost struct TextView {
    pub text: Seq<char>,
    pub base: BaseView,
}

pub ghost struct TranslatableView {
    pub translate: Seq<char>,
    pub args: Seq<CompView>,
    pub base: BaseView,
}

pub ghost struct KeyBindView {
    pub key_bind: Seq<char>,
    pub base: BaseView,
}

pub ghost struct ScoreCompView {
    pub score: ScoreView,
    pub base: BaseView,
}

pub ghost struct SelectorView {
    pub selector: Seq<char>,
    pub base: BaseView,
}

/// The abstract value of a component: the whole tree, with identifiers
/// as part pairs, colors as palette entries or byte triples, and the
/// ownership tags of child lists left out.
pub ghost enum CompView {
    Text(TextView),
    Translatable(TranslatableView),
    KeyBind(KeyBindView),
    Score(ScoreCompView),
    Selector(SelectorView),
    Base(BaseView),
}

pub open spec fn click_view(e: ClickEvent) -> ClickView {
    match e {
        ClickEvent::OpenUrl(s) => ClickView::OpenUrl(s@),
        ClickEvent::RunCommand(s) => ClickView::RunCommand(s@),
        ClickEvent::SuggestCommand(s) => ClickView::SuggestCommand(s@),
        ClickEvent::ChangePage(n) => ClickView::ChangePage(n),
        ClickEvent::CopyToClipboard(s) => ClickView::CopyToClipboard(s@),
    }
}

pub open spec fn score_name_view(n: ScoreName) -> ScoreNameView {
    match n {
        ScoreName::Literal(s) => ScoreNameView::Literal(s@),
        ScoreName::Uuid(u) => ScoreNameView::Uuid(u),
    }
}

pub open spec fn score_view(s: Score) -> ScoreView {
    ScoreView { name: score_name_view(s.name), objective: s.objective@, value: s.value@ }
}

pub open spec fn hover_view(h: HoverEvent) -> HoverView
    decreases h,
{
    match h {
        HoverEvent::ShowText(HoverText::Component(t)) => HoverView::ShowText(
            HoverTextView::Component(Box::new(text_view(*t))),
        ),
        HoverEvent::ShowText(HoverText::Plain(s)) => HoverView::ShowText(HoverTextView::Plain(s@)),
        HoverEvent::ShowItem(s) => HoverView::ShowItem(s@),
        HoverEvent::ShowEntity(s) => HoverView::ShowEntity(s@),
    }
}

pub open spec fn base_view(b: BaseComponent) -> BaseView
    decreases b,
{
    BaseView {
        bold: b.bold,
        italic: b.italic,
        underlined: b.underlined,
        strikethrough: b.strikethrough,
        obfuscated: b.obfuscated,
        font: match b.font {
            Some(id) => Some(id@),
            None => None,
        },
        color: match b.color {
            Some(c) => Some(c@),
            None => None,
        },
        insertion: match b.insertion {
            Some(s) => Some(s@),
            None => None,
        },
        extra: comp_seq_view(b.extra.contents()),
        click_event: match b.click_event {
            Some(e) => Some(click_view(e)),
            None => None,
        },
        hover_event: match b.hover_event {
            Some(h) => Some(hover_view(h)),
            None => None,
        },
    }
}

pub open spec fn text_view(t: TextComponent) -> TextView
    decreases t,
{
    TextView { text: t.text@, base: base_view(t.base) }
}

pub open spec fn comp_seq_view(s: Seq<Component>) -> Seq<CompView>
    decreases s,
{
    if s.len() == 0 {
        Seq::empty()
    } else {
        seq![cview(s[0])] + comp_seq_view(s.drop_first())
    }
}

pub open spec fn cview(c: Component) -> CompView
    decreases c,
{
    match c {
        Component::Text(t) => CompView::Text(text_view(t)),
        Component::Translatable(t) => CompView::Translatable(
            TranslatableView {
                translate: t.translate@,
                args: comp_seq_view(t.with.contents()),
                base: base_view(t.base),
            },
        ),
        Component::KeyBind(k) => CompView::KeyBind(
            KeyBindView { key_bind: k.key_bind@, base: base_view(k.base) },
        ),
        Component::Score(s) => CompView::Score(
            ScoreCompView { score: score_view(s.score), base: base_view(s.base) },
        ),
        Component::Selector(s) => CompView::Selector(
            SelectorView { selector: s.selector@, base: base_view(s.base) },
        ),
        Component::Base(b) => CompView::Base(base_view(b)),
    }
}

impl View for Component {
    type V = CompView;

    open spec fn view(&self) -> CompView {
        cview(*self)
    }
}

/// `comp_seq_view` maps the view over the elements.
pub proof fn lemma_comp_seq_view(s: Seq<Component>)
    ensures
        comp_seq_view(s).len() == s.len(),
        forall|i: int| 0 <= i < s.len() ==> comp_seq_view(s)[i] == cview(#[trigger] s[i]),
    decreases s.len(),
{
    if s.len() > 0 {
        lemma_comp_seq_view(s.drop_first());
        assert forall|i: int| 0 <= i < s.len() implies comp_seq_view(s)[i] == cview(
            #[trigger] s[i],
        ) by {
            if i > 0 {
                assert(s.drop_first()[i - 1] == s[i]);
                assert(comp_seq_view(s)[i] == comp_seq_view(s.drop_first())[i - 1]);
            }
        }
    }
}

// ---------------------------------------------------------------------
// The copy-on-write list.
// ---------------------------------------------------------------------

impl CowList {
    /// The components the list holds.
    pub closed spec fn contents(self) -> Seq<Component> {
        self.items@
    }

    /// Whether the storage is the list's own.
    pub closed spec fn is_owned(self) -> bool {
        self.owned
    }

    /// An empty list with owned storage.
    pub fn new() -> (r: Self)
        ensures
            r.contents() == Seq::<Component>::empty(),
            r.is_owned(),
    {
        CowList { owned: true, items: Vec::new() }
    }

    /// A list that owns `items`.
    pub fn owned_from(items: Vec<Component>) -> (r: Self)
        ensures
            r.contents() == items@,
            r.is_owned(),
    {
        CowList { owned: true, items }
    }

    /// A list standing for `items` held elsewhere: it starts in the
    /// borrowed state, and the first mutation materializes owned storage.
    pub fn borrowed(items: Vec<Component>) -> (r: Self)
        ensures
            r.contents() == items@,
            !r.is_owned(),
    {
        CowList { owned: false, items }
    }

    /// Whether the storage is the list's own, observed at run time.
    pub fn owned_storage(&self) -> (r: bool)
        ensures
            r == self.is_owned(),
    {
        self.owned
    }

    pub fn len(&self) -> (n: usize)
        ensures
            n == self.contents().len(),
    {
        self.items.len()
    }

    pub fn is_empty(&self) -> (r: bool)
        ensures
            r == (self.contents().len() == 0),
    {
        self.items.len() == 0
    }

    /// Reads an element; reading never forces a copy.
    pub fn get(&self, i: usize) -> (r: &Component)
        requires
            i < self.contents().len(),
        ensures
            *r == self.contents()[i as int],
    {
        &self.items[i]
    }

    /// Ensures owned storage: a borrowed list is materialized once, an
    /// owned list is left exactly as it is. The contents never change,
    /// and the elements are untouched, so materializing a list does not
    /// materialize the children inside its elements.
    pub fn make_owned(&mut self)
        ensures
            final(self).contents() == old(self).contents(),
            final(self).is_owned(),
            old(self).is_owned() ==> *final(self) == *old(self),
    {
        self.owned = true;
    }

    /// Appends one component; the storage is owned afterwards.
    pub fn add(&mut self, c: Component)
        ensures
            final(self).contents() == old(self).contents().push(c),
            final(self).is_owned(),
    {
        if self.items.len() == 0 {
            let mut items: Vec<Component> = Vec::new();
            items.push(c);
            proof {
                assert(old(self).contents().push(c) =~= items@);
            }
            *self = CowList { owned: true, items };
        } else {
            self.make_owned();
            self.items.push(c);
        }
    }

    /// Appends every component of `other`. An empty list takes `other`'s
    /// storage as it stands; a nonempty one is materialized and extended.
    pub fn add_values(&mut self, other: CowList)
        ensures
            old(self).contents().len() == 0 ==> *final(self) == other,
            old(self).contents().len() > 0 ==> final(self).contents() == old(self).contents()
                + other.contents() && final(self).is_owned(),
    {
        if self.items.len() == 0 {
            *self = other;
        } else {
            self.make_owned();
            let mut rest = other.items;
            self.items.append(&mut rest);
        }
    }
}

/// An element of a child list is structurally below the list, which
/// recursive functions over the tree lean on for termination.
pub proof fn lemma_cow_smaller(l: CowList, i: int)
    requires
        0 <= i < l.contents().len(),
    ensures
        decreases_to!(l => l.contents()[i]),
{
    assert(decreases_to!(l => l.items));
    assert(decreases_to!(l.items => l.items@));
    assert(decreases_to!(l.items@ => l.items@[i]));
}

// ---------------------------------------------------------------------
// Mutators.
// ---------------------------------------------------------------------

/// The styling and event fields of two envelopes agree; only the child
/// list may differ.
pub open spec fn same_except_extra(a: BaseComponent, b: BaseComponent) -> bool {
    &&& a.bold == b.bold
    &&& a.italic == b.italic
    &&& a.underlined == b.underlined
    &&& a.strikethrough == b.strikethrough
    &&& a.obfuscated == b.obfuscated
    &&& a.font == b.font
    &&& a.color == b.color
    &&& a.insertion == b.insertion
    &&& a.click_event == b.click_event
    &&& a.hover_event == b.hover_event
}

impl BaseComponent {
    /// An envelope with every field unset and no children.
    pub fn new() -> (r: Self)
        ensures
            r.bold is None,
            r.italic is None,
            r.underlined is None,
            r.strikethrough is None,
            r.obfuscated is None,
            r.font is None,
            r.color is None,
            r.insertion is None,
            r.extra.contents() == Seq::<Component>::empty(),
            r.extra.is_owned(),
            r.click_event is None,
            r.hover_event is None,
    {
        BaseComponent {
            bold: None,
            italic: None,
            underlined: None,
            strikethrough: None,
            obfuscated: None,
            font: None,
            color: None,
            insertion: None,
            extra: CowList::new(),
            click_event: None,
            hover_event: None,
        }
    }

    /// The child list, read without copying.
    pub fn get_extra(&self) -> (r: &CowList)
        ensures
            r == &self.extra,
    {
        &self.extra
    }

    /// Appends one continuation sibling; the child list is owned
    /// afterwards and everything else is untouched.
    pub fn add_extra(&mut self, extra: Component)
        ensures
            same_except_extra(*old(self), *final(self)),
            final(self).extra.contents() == old(self).extra.contents().push(extra),
            final(self).extra.is_owned(),
    {
        self.extra.add(extra);
    }

    /// Appends every component of `extras`; everything else is untouched.
    pub fn add_extras(&mut self, extras: CowList)
        ensures
            same_except_extra(*old(self), *final(self)),
            old(self).extra.contents().len() == 0 ==> final(self).extra == extras,
            old(self).extra.contents().len() > 0 ==> final(self).extra.contents() == old(
                self,
            ).extra.contents() + extras.contents() && final(self).extra.is_owned(),
    {
        self.extra.add_values(extras);
    }

    /// Sets the one style boolean that `kind` selects, leaving the others
    /// untouched; the `Reset` kind instead forces the whole style over:
    /// all five booleans to `false` and the color cleared.
    pub fn set_decoration(&mut self, kind: Style, value: bool)
        ensures
            final(self).extra == old(self).extra,
            final(self).font == old(self).font,
            final(self).insertion == old(self).insertion,
            final(self).click_event == old(self).click_event,
            final(self).hover_event == old(self).hover_event,
            match kind {
                Style::Random => {
                    &&& final(self).obfuscated == Some(value)
                    &&& final(self).bold == old(self).bold
                    &&& final(self).italic == old(self).italic
                    &&& final(self).strikethrough == old(self).strikethrough
                    &&& final(self).underlined == old(self).underlined
                    &&& final(self).color == old(self).color
                },
                Style::Bold => {
                    &&& final(self).bold == Some(value)
                    &&& final(self).italic == old(self).italic
                    &&& final(self).underlined == old(self).underlined
                    &&& final(self).strikethrough == old(self).strikethrough
                    &&& final(self).obfuscated == old(self).obfuscated
                    &&& final(self).color == old(self).color
                },
                Style::Strikethrough => {
                    &&& final(self).strikethrough == Some(value)
                    &&& final(self).bold == old(self).bold
                    &&& final(self).italic == old(self).italic
                    &&& final(self).underlined == old(self).underlined
                    &&& final(self).obfuscated == old(self).obfuscated
                    &&& final(self).color == old(self).color
                },
                Style::Underlined => {
                    &&& final(self).underlined == Some(value)
                    &&& final(self).bold == old(self).bold
                    &&& final(self).italic == old(self).italic
                    &&& final(self).strikethrough == old(self).strikethrough
                    &&& final(self).obfuscated == old(self).obfuscated
                    &&& final(self).color == old(self).color
                },
                Style::Italic => {
                    &&& final(self).italic == Some(value)
                    &&& final(self).bold == old(self).bold
                    &&& final(self).underlined == old(self).underlined
                    &&& final(self).strikethrough == old(self).strikethrough
                    &&& final(self).obfuscated == old(self).obfuscated
                    &&& final(self).color == old(self).color
                },
                Style::Reset => {
                    &&& final(self).bold == Some(false)
                    &&& final(self).italic == Some(false)
                    &&& final(self).underlined == Some(false)
                    &&& final(self).strikethrough == Some(false)
                    &&& final(self).obfuscated == Some(false)
                    &&& final(self).color is None
                },
            },
    {
        match kind {
            Style::Random => self.obfuscated = Some(value),
            Style::Bold => self.bold = Some(value),
            Style::Strikethrough => self.strikethrough = Some(value),
            Style::Underlined => self.underlined = Some(value),
            Style::Italic => self.italic = Some(value),
            Style::Reset => self.reset(),
        }
    }

    /// The whole-style override: all five style booleans forced to
    /// `false` and the color cleared in one call, not a merge.
    pub fn reset(&mut self)
        ensures
            final(self).bold == Some(false),
            final(self).italic == Some(false),
            final(self).underlined == Some(false),
            final(self).strikethrough == Some(false),
            final(self).obfuscated == Some(false),
            final(self).color is None,
            final(self).extra == old(self).extra,
            final(self).font == old(self).font,
            final(self).insertion == old(self).insertion,
            final(self).click_event == old(self).click_event,
            final(self).hover_event == old(self).hover_event,
    {
        self.bold = Some(false);
        self.italic = Some(false);
        self.underlined = Some(false);
        self.strikethrough = Some(false);
        self.obfuscated = Some(false);
        self.color = None;
    }
}

impl TranslatableComponent {
    /// Appends one substitution argument; the argument list is owned
    /// afterwards and everything else is untouched.
    pub fn add_arg(&mut self, arg: Component)
        ensures
            final(self).with.contents() == old(self).with.contents().push(arg),
            final(self).with.is_owned(),
            final(self).translate == old(self).translate,
            final(self).base == old(self).base,
    {
        self.with.add(arg);
    }

    /// Appends every component of `args`; everything else is untouched.
    pub fn add_args(&mut self, args: CowList)
        ensures
            old(self).with.contents().len() == 0 ==> final(self).with == args,
            old(self).with.contents().len() > 0 ==> final(self).with.contents() == old(
                self,
            ).with.contents() + args.contents() && final(self).with.is_owned(),
            final(self).translate == old(self).translate,
            final(self).base == old(self).base,
    {
        self.with.add_values(args);
    }
}

// ---------------------------------------------------------------------
// Equality of abstract values.
// ---------------------------------------------------------------------

/// Equality of click events, on their abstract values.
pub fn click_equal(a: &ClickEvent, b: &ClickEvent) -> (r: bool)
    ensures
        r == (click_view(*a) == click_view(*b)),
{
    match (a, b) {
        (ClickEvent::OpenUrl(x), ClickEvent::OpenUrl(y)) => crate::text::str_eq(
            x.as_str(),
            y.as_str(),
        ),
        (ClickEvent::RunCommand(x), ClickEvent::RunCommand(y)) => crate::text::str_eq(
            x.as_str(),
            y.as_str(),
        ),
        (ClickEvent::SuggestCommand(x), ClickEvent::SuggestCommand(y)) => crate::text::str_eq(
            x.as_str(),
            y.as_str(),
        ),
        (ClickEvent::ChangePage(x), ClickEvent::ChangePage(y)) => *x == *y,
        (ClickEvent::CopyToClipboard(x), ClickEvent::CopyToClipboard(y)) => crate::text::str_eq(
            x.as_str(),
            y.as_str(),
        ),
        _ => false,
    }
}

/// Equality of scores, on their abstract values.
pub fn score_equal(a: &Score, b: &Score) -> (r: bool)
    ensures
        r == (score_view(*a) == score_view(*b)),
{
    let name_eq = match (&a.name, &b.name) {
        (ScoreName::Literal(x), ScoreName::Literal(y)) => crate::text::str_eq(
            x.as_str(),
            y.as_str(),
        ),
        (ScoreName::Uuid(x), ScoreName::Uuid(y)) => *x == *y,
        _ => false,
    };
    name_eq && crate::text::str_eq(a.objective.as_str(), b.objective.as_str())
        && crate::json::json_equal(&a.value, &b.value)
}

/// Equality of hover events, on their abstract values.
pub fn hover_equal(a: &HoverEvent, b: &HoverEvent) -> (r: bool)
    ensures
        r == (hover_view(*a) == hover_view(*b)),
    decreases *a,
{
    match (a, b) {
        (
            HoverEvent::ShowText(HoverText::Component(x)),
            HoverEvent::ShowText(HoverText::Component(y)),
        ) => {
            proof {
                assert(decreases_to!(*a => a->ShowText_0));
                assert(decreases_to!(a->ShowText_0 => a->ShowText_0->Component_0));
                assert(a->ShowText_0->Component_0 == *x);
            }
            text_equal(&**x, &**y)
        },
        (HoverEvent::ShowText(HoverText::Plain(x)), HoverEvent::ShowText(HoverText::Plain(y))) => {
            crate::text::str_eq(x.as_str(), y.as_str())
        },
        (HoverEvent::ShowItem(x), HoverEvent::ShowItem(y)) => crate::text::str_eq(
            x.as_str(),
            y.as_str(),
        ),
        (HoverEvent::ShowEntity(x), HoverEvent::ShowEntity(y)) => crate::text::str_eq(
            x.as_str(),
            y.as_str(),
        ),
        _ => false,
    }
}

/// Equality of child lists, on their contents alone: the ownership tag
/// does not take part, so a borrowed and an owned list with the same
/// components compare equal.
pub fn list_equal(a: &CowList, b: &CowList) -> (r: bool)
    ensures
        r == (comp_seq_view(a.contents()) == comp_seq_view(b.contents())),
    decreases *a,
{
    proof {
        lemma_comp_seq_view(a.contents());
        lemma_comp_seq_view(b.contents());
    }
    let na = a.len();
    if na != b.len() {
        return false;
    }
    let mut i: usize = 0;
    while i < na
        invariant
            i <= na,
            na == a.contents().len(),
            na == b.contents().len(),
            comp_seq_view(a.contents()).len() == na,
            comp_seq_view(b.contents()).len() == na,
            forall|k: int| 0 <= k < na ==> comp_seq_view(a.contents())[k] == cview(
                #[trigger] a.contents()[k],
            ),
            forall|k: int| 0 <= k < na ==> comp_seq_view(b.contents())[k] == cview(
                #[trigger] b.contents()[k],
            ),
            forall|k: int| 0 <= k < i ==> cview(#[trigger] a.contents()[k]) == cview(
                b.contents()[k],
            ),
        decreases na - i,
    {
        proof {
            lemma_cow_smaller(*a, i as int);
        }
        if !components_equal(a.get(i), b.get(i)) {
            proof {
                assert(comp_seq_view(a.contents())[i as int] != comp_seq_view(
                    b.contents(),
                )[i as int]);
            }
            return false;
        }
        i = i + 1;
    }
    proof {
        assert forall|k: int| 0 <= k < na implies comp_seq_view(a.contents())[k]
            == comp_seq_view(b.contents())[k] by {
            assert(cview(a.contents()[k]) == cview(b.contents()[k]));
        }
        assert(comp_seq_view(a.contents()) =~= comp_seq_view(b.contents()));
    }
    true
}

fn opt_bool_equal(a: &Option<bool>, b: &Option<bool>) -> (r: bool)
    ensures
        r == (*a == *b),
{
    match (a, b) {
        (None, None) => true,
        (Some(x), Some(y)) => *x == *y,
        _ => false,
    }
}

/// Equality of style envelopes, on their abstract values.
pub fn base_equal(a: &BaseComponent, b: &BaseComponent) -> (r: bool)
    ensures
        r == (base_view(*a) == base_view(*b)),
    decreases *a,
{
    let ghost av = base_view(*a);
    let ghost bv = base_view(*b);
    if !opt_bool_equal(&a.bold, &b.bold) {
        return false;
    }
    if !opt_bool_equal(&a.italic, &b.italic) {
        return false;
    }
    if !opt_bool_equal(&a.underlined, &b.underlined) {
        return false;
    }
    if !opt_bool_equal(&a.strikethrough, &b.strikethrough) {
        return false;
    }
    if !opt_bool_equal(&a.obfuscated, &b.obfuscated) {
        return false;
    }
    let font_eq = match (&a.font, &b.font) {
        (None, None) => true,
        (Some(x), Some(y)) => x == y,
        _ => false,
    };
    if !font_eq {
        return false;
    }
    let color_eq = match (&a.color, &b.color) {
        (None, None) => true,
        (Some(x), Some(y)) => x == y,
        _ => false,
    };
    if !color_eq {
        return false;
    }
    let insertion_eq = match (&a.insertion, &b.insertion) {
        (None, None) => true,
        (Some(x), Some(y)) => crate::text::str_eq(x.as_str(), y.as_str()),
        _ => false,
    };
    if !insertion_eq {
        return false;
    }
    proof {
        assert(decreases_to!(*a => a.extra));
        assert(decreases_to!(*a => a.hover_event));
    }
    if !list_equal(&a.extra, &b.extra) {
        return false;
    }
    let click_eq = match (&a.click_event, &b.click_event) {
        (None, None) => true,
        (Some(x), Some(y)) => click_equal(x, y),
        _ => false,
    };
    if !click_eq {
        return false;
    }
    let hover_eq = match (&a.hover_event, &b.hover_event) {
        (None, None) => true,
        (Some(x), Some(y)) => {
            proof {
                assert(decreases_to!(a.hover_event => *x));
            }
            hover_equal(x, y)
        },
        _ => false,
    };
    if !hover_eq {
        return false;
    }
    proof {
        assert(av == bv);
    }
    true
}

/// Equality of text components, on their abstract values.
pub fn text_equal(a: &TextComponent, b: &TextComponent) -> (r: bool)
    ensures
        r == (text_view(*a) == text_view(*b)),
    decreases *a,
{
    proof {
        assert(decreases_to!(*a => a.base));
    }
    crate::text::str_eq(a.text.as_str(), b.text.as_str()) && base_equal(&a.base, &b.base)
}

/// Equality of components, on their abstract values: identifiers by
/// their part pairs, colors by their values, child lists by contents.
pub fn components_equal(a: &Component, b: &Component) -> (r: bool)
    ensures
        r == (a@ == b@),
    decreases *a,
{
    match (a, b) {
        (Component::Text(x), Component::Text(y)) => {
            proof {
                assert(decreases_to!(*a => *x));
            }
            text_equal(x, y)
        },
        (Component::Translatable(x), Component::Translatable(y)) => {
            proof {
                assert(decreases_to!(*a => *x));
                assert(decreases_to!(*x => x.with));
                assert(decreases_to!(*x => x.base));
            }
            let t_eq = crate::text::str_eq(x.translate.as_str(), y.translate.as_str());
            let args_eq = list_equal(&x.with, &y.with);
            let base_eq = base_equal(&x.base, &y.base);
            t_eq && args_eq && base_eq
        },
        (Component::KeyBind(x), Component::KeyBind(y)) => {
            proof {
                assert(decreases_to!(*a => *x));
                assert(decreases_to!(*x => x.base));
            }
            crate::text::str_eq(x.key_bind.as_str(), y.key_bind.as_str()) && base_equal(
                &x.base,
                &y.base,
            )
        },
        (Component::Score(x), Component::Score(y)) => {
            proof {
                assert(decreases_to!(*a => *x));
                assert(decreases_to!(*x => x.base));
            }
            score_equal(&x.score, &y.score) && base_equal(&x.base, &y.base)
        },
        (Component::Selector(x), Component::Selector(y)) => {
            proof {
                assert(decreases_to!(*a => *x));
                assert(decreases_to!(*x => x.base));
            }
            crate::text::str_eq(x.selector.as_str(), y.selector.as_str()) && base_equal(
                &x.base,
                &y.base,
            )
        },
        (Component::Base(x), Component::Base(y)) => {
            proof {
                assert(decreases_to!(*a => *x));
            }
            base_equal(x, y)
        },
        _ => {
            proof {
                assert(match *a {
                    Component::Text(_) => a@ is Text,
                    Component::Translatable(_) => a@ is Translatable,
                    Component::KeyBind(_) => a@ is KeyBind,
                    Component::Score(_) => a@ is Score,
                    Component::Selector(_) => a@ is Selector,
                    Component::Base(_) => a@ is Base,
                });
                assert(match *b {
                    Component::Text(_) => b@ is Text,
                    Component::Translatable(_) => b@ is Translatable,
                    Component::KeyBind(_) => b@ is KeyBind,
                    Component::Score(_) => b@ is Score,
                    Component::Selector(_) => b@ is Selector,
                    Component::Base(_) => b@ is Base,
                });
            }
            false
        },
    }
}

impl From<TextComponent> for Component {
    fn from(c: TextComponent) -> (r: Component) {
        Component::Text(c)
    }
}

impl vstd::std_specs::convert::FromSpecImpl<TextComponent> for Component {
    open spec fn obeys_from_spec() -> bool {
        true
    }

    open spec fn from_spec(c: TextComponent) -> Component {
        Component::Text(c)
    }
}

impl From<TranslatableComponent> for Component {
    fn from(c: TranslatableComponent) -> (r: Component) {
        Component::Translatable(c)
    }
}

impl vstd::std_specs::convert::FromSpecImpl<TranslatableComponent> for Component {
    open spec fn obeys_from_spec() -> bool {
        true
    }

    open spec fn from_spec(c: TranslatableComponent) -> Component {
        Component::Translatable(c)
    }
}

impl From<KeyBindComponent> for Component {
    fn from(c: KeyBindComponent) -> (r: Component) {
        Component::KeyBind(c)
    }
}

impl vstd::std_specs::convert::FromSpecImpl<KeyBindComponent> for Component {
    open spec fn obeys_from_spec() -> bool {
        true
    }

    open spec fn from_spec(c: KeyBindComponent) -> Component {
        Component::KeyBind(c)
    }
}

impl From<ScoreComponent> for Component {
    fn from(c: ScoreComponent) -> (r: Component) {
        Component::Score(c)
    }
}

impl vstd::std_specs::convert::FromSpecImpl<ScoreComponent> for Component {
    open spec fn obeys_from_spec() -> bool {
        true
    }

    open spec fn from_spec(c: ScoreComponent) -> Component {
        Component::Score(c)
    }
}

impl From<SelectorComponent> for Component {
    fn from(c: SelectorComponent) -> (r: Component) {
        Component::Selector(c)
    }
}

impl vstd::std_specs::convert::FromSpecImpl<SelectorComponent> for Component {
    open spec fn obeys_from_spec() -> bool {
        true
    }

    open spec fn from_spec(c: SelectorComponent) -> Component {
        Component::Selector(c)
    }
}

impl From<BaseComponent> for Component {
    fn from(c: BaseComponent) -> (r: Component) {
        Component::Base(c)
    }
}

impl vstd::std_specs::convert::FromSpecImpl<BaseComponent> for Component {
    open spec fn obeys_from_spec() -> bool {
        true
    }

    open spec fn from_spec(c: BaseComponent) -> Component {
        Component::Base(c)
    }
}

} // verus!
