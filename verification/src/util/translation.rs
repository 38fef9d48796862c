use vstd::prelude::*;

use crate::util::json::{find_field, lookup};
use crate::util::resource_location::has_char;
use crate::util::text::{ClickEvent, HoverEvent, Style, TextComponent, TextComponentBase, TextContent};

verus! {

/// Two optional texts are both absent or both hold the same text.
pub open spec fn same_opt_text(a: Option<String>, b: Option<String>) -> bool {
    match (a, b) {
        (None, None) => true,
        (Some(x), Some(y)) => x@ == y@,
        _ => false,
    }
}

/// Two optional click events are both absent or the same event.
pub open spec fn same_click(a: Option<ClickEvent>, b: Option<ClickEvent>) -> bool {
    match (a, b) {
        (None, None) => true,
        (Some(ClickEvent::OpenUrl { url: x }), Some(ClickEvent::OpenUrl { url: y })) => x@ == y@,
        (Some(ClickEvent::RunCommand { command: x }), Some(ClickEvent::RunCommand { command: y })) =>
            x@ == y@,
        (
            Some(ClickEvent::SuggestCommand { command: x }),
            Some(ClickEvent::SuggestCommand { command: y }),
        ) => x@ == y@,
        (Some(ClickEvent::ChangePage { page: x }), Some(ClickEvent::ChangePage { page: y })) => x
            == y,
        (
            Some(ClickEvent::CopyToClipboard { value: x }),
            Some(ClickEvent::CopyToClipboard { value: y }),
        ) => x@ == y@,
        _ => false,
    }
}

/// Two styles agree in every field but the hover event.
pub open spec fn same_plain_style(a: Style, b: Style) -> bool {
    &&& a.color == b.color
    &&& a.bold == b.bold
    &&& a.italic == b.italic
    &&& a.underlined == b.underlined
    &&& a.strikethrough == b.strikethrough
    &&& a.obfuscated == b.obfuscated
    &&& same_opt_text(a.insertion, b.insertion)
    &&& same_click(a.click_event, b.click_event)
    &&& same_opt_text(a.font, b.font)
    &&& a.shadow_color == b.shadow_color
}

/// Two contents are the same.
pub open spec fn same_content(a: TextContent, b: TextContent) -> bool
    decreases a,
{
    match (a, b) {
        (TextContent::Text { text: x }, TextContent::Text { text: y }) => x@ == y@,
        (
            TextContent::Translate { translate: k1, with: w1 },
            TextContent::Translate { translate: k2, with: w2 },
        ) => k1@ == k2@ && w1@.len() == w2@.len() && forall|i: int|
            0 <= i < w1@.len() ==> same_text(#[trigger] w1[i], w2[i]),
        (
            TextContent::EntityNames { selector: s1, separator: p1 },
            TextContent::EntityNames { selector: s2, separator: p2 },
        ) => s1@ == s2@ && same_opt_text(p1, p2),
        (TextContent::Keybind { keybind: k1 }, TextContent::Keybind { keybind: k2 }) => k1@ == k2@,
        (
            TextContent::Custom { key: k1, locale: l1, with: w1 },
            TextContent::Custom { key: k2, locale: l2, with: w2 },
        ) => k1@ == k2@ && l1 == l2 && w1@.len() == w2@.len() && forall|i: int|
            0 <= i < w1@.len() ==> same_text(#[trigger] w1[i], w2[i]),
        _ => false,
    }
}

/// Two optional hover events are both absent or the same event.
pub open spec fn same_hover(a: Option<HoverEvent>, b: Option<HoverEvent>) -> bool
    decreases a,
{
    match (a, b) {
        (None, None) => true,
        (Some(HoverEvent::ShowText { value: v1 }), Some(HoverEvent::ShowText { value: v2 })) =>
            v1@.len() == v2@.len() && forall|i: int|
            0 <= i < v1@.len() ==> same_text(#[trigger] v1[i], v2[i]),
        (
            Some(HoverEvent::ShowItem { id: i1, count: c1 }),
            Some(HoverEvent::ShowItem { id: i2, count: c2 }),
        ) => i1@ == i2@ && c1 == c2,
        (
            Some(HoverEvent::ShowEntity { name: n1, id: i1, uuid: u1 }),
            Some(HoverEvent::ShowEntity { name: n2, id: i2, uuid: u2 }),
        ) => i1@ == i2@ && u1@ == u2@ && match (n1, n2) {
            (None, None) => true,
            (Some(x), Some(y)) => x@.len() == y@.len() && forall|i: int|
                0 <= i < x@.len() ==> same_text(#[trigger] x[i], y[i]),
            _ => false,
        },
        _ => false,
    }
}

/// Two text components are the same: the same content, style and following texts.
pub open spec fn same_text(a: TextComponentBase, b: TextComponentBase) -> bool
    decreases a,
{
    &&& same_content(a.content, b.content)
    &&& same_plain_style(*a.style, *b.style)
    &&& same_hover(a.style.hover_event, b.style.hover_event)
    &&& a.extra@.len() == b.extra@.len()
    &&& forall|i: int| 0 <= i < a.extra@.len() ==> same_text(#[trigger] a.extra[i], b.extra[i])
}

/// Copies an optional text.
fn copy_opt_text(a: &Option<String>) -> (r: Option<String>)
    ensures
        same_opt_text(*a, r),
{
    match a {
        Some(x) => Some(x.clone()),
        None => None,
    }
}

/// Copies an optional click event.
fn copy_click(a: &Option<ClickEvent>) -> (r: Option<ClickEvent>)
    ensures
        same_click(*a, r),
{
    match a {
        None => None,
        Some(ClickEvent::OpenUrl { url }) => Some(ClickEvent::OpenUrl { url: url.clone() }),
        Some(ClickEvent::RunCommand { command }) => Some(
            ClickEvent::RunCommand { command: command.clone() },
        ),
        Some(ClickEvent::SuggestCommand { command }) => Some(
            ClickEvent::SuggestCommand { command: command.clone() },
        ),
        Some(ClickEvent::ChangePage { page }) => Some(ClickEvent::ChangePage { page: *page }),
        Some(ClickEvent::CopyToClipboard { value }) => Some(
            ClickEvent::CopyToClipboard { value: value.clone() },
        ),
    }
}

/// A style with the fields of `s` but the hover event, which is `hover`.
fn restyle(s: &Style, hover: Option<HoverEvent>) -> (r: Style)
    ensures
        same_plain_style(*s, r),
        r.hover_event == hover,
{
    Style {
        color: s.color,
        bold: s.bold,
        italic: s.italic,
        underlined: s.underlined,
        strikethrough: s.strikethrough,
        obfuscated: s.obfuscated,
        insertion: copy_opt_text(&s.insertion),
        click_event: copy_click(&s.click_event),
        hover_event: hover,
        font: copy_opt_text(&s.font),
        shadow_color: s.shadow_color,
    }
}

/// Copies a list of text components, item by item.
fn copy_texts(v: &Vec<TextComponentBase>) -> (r: Vec<TextComponentBase>)
    ensures
        r@.len() == v@.len(),
        forall|i: int| 0 <= i < v@.len() ==> same_text(#[trigger] v[i], r[i]),
    decreases v,
{
    let mut r: Vec<TextComponentBase> = Vec::new();
    let mut i: usize = 0;
    while i < v.len()
        invariant
            0 <= i <= v@.len(),
            r@.len() == i,
            forall|k: int| 0 <= k < i ==> same_text(#[trigger] v[k], r[k]),
        decreases v@.len() - i,
    {
        proof {
            vstd::std_specs::vec::axiom_vec_index_decreases(*v, i as int);
        }
        let c = copy_text(&v[i]);
        r.push(c);
        i += 1;
    }
    r
}

/// Copies a content.
fn copy_content(c: &TextContent) -> (r: TextContent)
    ensures
        same_content(*c, r),
    decreases c,
{
    match c {
        TextContent::Text { text } => TextContent::Text { text: text.clone() },
        TextContent::Translate { translate, with } => {
            let w = copy_texts(with);
            TextContent::Translate { translate: translate.clone(), with: w }
        },
        TextContent::EntityNames { selector, separator } => TextContent::EntityNames {
            selector: selector.clone(),
            separator: copy_opt_text(separator),
        },
        TextContent::Keybind { keybind } => TextContent::Keybind { keybind: keybind.clone() },
        TextContent::Custom { key, locale, with } => {
            let w = copy_texts(with);
            TextContent::Custom { key: key.clone(), locale: *locale, with: w }
        },
    }
}

/// Copies an optional hover event.
fn copy_hover(h: &Option<HoverEvent>) -> (r: Option<HoverEvent>)
    ensures
        same_hover(*h, r),
    decreases h,
{
    match h {
        None => None,
        Some(HoverEvent::ShowText { value }) => Some(HoverEvent::ShowText { value: copy_texts(value) }),
        Some(HoverEvent::ShowItem { id, count }) => Some(
            HoverEvent::ShowItem { id: id.clone(), count: *count },
        ),
        Some(HoverEvent::ShowEntity { name, id, uuid }) => {
            let n = match name {
                Some(x) => Some(copy_texts(x)),
                None => None,
            };
            Some(HoverEvent::ShowEntity { name: n, id: id.clone(), uuid: uuid.clone() })
        },
    }
}

/// Copies a text component with everything in it.
pub fn copy_text(c: &TextComponentBase) -> (r: TextComponentBase)
    ensures
        same_text(*c, r),
    decreases c,
{
    let content = copy_content(&c.content);
    let hover = copy_hover(&c.style.hover_event);
    let style = restyle(&c.style, hover);
    let extra = copy_texts(&c.extra);
    TextComponentBase { content, style: Box::new(style), extra }
}

/// How a translation reads: its text, the places of its placeholders, as the positions of
/// their first and last characters, in order, and for each placeholder the position of the
/// argument it shows.
#[derive(Debug)]
pub struct Translation {
    pub text: String,
    pub ranges: Vec<(usize, usize)>,
    pub order: Vec<usize>,
}

impl Translation {
    /// One argument position per placeholder, and the placeholders inside the text, in order,
    /// without overlap.
    pub open spec fn wf(&self) -> bool {
        &&& self.order@.len() == self.ranges@.len()
        &&& forall|k: int|
            0 <= k < self.ranges@.len() ==> (#[trigger] self.ranges@[k]).0 <= self.ranges@[k].1
                && self.ranges@[k].1 < self.text@.len()
        &&& forall|k: int|
            0 <= k < self.ranges@.len() - 1 ==> (#[trigger] self.ranges@[k]).1 < self.ranges@[k
                + 1].0
    }

    /// Puts the text, placeholders and argument positions together; nothing when they do not
    /// fit together.
    pub fn new(text: String, ranges: Vec<(usize, usize)>, order: Vec<usize>) -> (r: Option<Self>)
        ensures
            r is Some <==> (Translation { text, ranges, order }).wf(),
            r matches Some(t) ==> t == (Translation { text, ranges, order }),
    {
        if order.len() != ranges.len() {
            return None;
        }
        let n = text.unicode_len();
        let mut k: usize = 0;
        while k < ranges.len()
            invariant
                0 <= k <= ranges@.len(),
                n == text@.len(),
                forall|j: int|
                    0 <= j < k ==> (#[trigger] ranges@[j]).0 <= ranges@[j].1 && ranges@[j].1 < n,
                forall|j: int| 0 <= j < k - 1 ==> (#[trigger] ranges@[j]).1 < ranges@[j + 1].0,
            decreases ranges@.len() - k,
        {
            let (a, b) = ranges[k];
            if a > b || b >= n {
                return None;
            }
            if k > 0 && ranges[k - 1].1 >= a {
                return None;
            }
            k += 1;
        }
        Some(Translation { text, ranges, order })
    }
}

/// The translations of a language, by key.
#[derive(Debug)]
pub struct TranslationTable {
    entries: Vec<(String, Translation)>,
}

/// A part of a translated text: the argument at a position, or plain text.
pub enum Slice {
    Argument(int),
    Plain(Seq<char>),
}

/// What the translation of `key` in `table` is: the first entry for it, or else the key itself
/// with no placeholders.
pub open spec fn translation_of(table: Seq<(String, Translation)>, key: Seq<char>) -> (
    Seq<char>,
    Seq<(usize, usize)>,
    Seq<usize>,
) {
    match lookup(table, key) {
        Some(t) => (t.text@, t.ranges@, t.order@),
        None => (key, Seq::empty(), Seq::empty()),
    }
}

/// The parts that the placeholder at `idx` gives: its argument, or the placeholder's own text
/// when there are fewer arguments, then the text up to the next placeholder or the end, unless
/// the placeholder ends the text.
pub open spec fn slices_at(
    tr: (Seq<char>, Seq<(usize, usize)>, Seq<usize>),
    args: int,
    idx: int,
) -> Seq<Slice> {
    let (text, ranges, order) = tr;
    let (s, e) = ranges[idx];
    let first = if (order[idx] as int) < args {
        Slice::Argument(order[idx] as int)
    } else {
        Slice::Plain(text.subrange(s as int, e + 1))
    };
    if e >= text.len() - 1 {
        seq![first]
    } else if idx == ranges.len() - 1 {
        seq![first, Slice::Plain(text.subrange(e + 1, text.len() as int))]
    } else {
        seq![first, Slice::Plain(text.subrange(e + 1, ranges[idx + 1].0 as int))]
    }
}

/// The parts of the first `n` placeholders.
pub open spec fn slices_upto(
    tr: (Seq<char>, Seq<(usize, usize)>, Seq<usize>),
    args: int,
    n: int,
) -> Seq<Slice>
    decreases n,
{
    if n <= 0 {
        Seq::empty()
    } else {
        slices_upto(tr, args, n - 1) + slices_at(tr, args, n - 1)
    }
}

/// The parts that follow the leading text of a translation: none when the text has no `%`.
pub open spec fn slices_of(tr: (Seq<char>, Seq<(usize, usize)>, Seq<usize>), args: int) -> Seq<
    Slice,
> {
    if has_char(tr.0, '%') {
        slices_upto(tr, args, tr.1.len() as int)
    } else {
        Seq::empty()
    }
}

/// The leading text of a translation: up to its first placeholder when its text has a `%`.
pub open spec fn leading_text(tr: (Seq<char>, Seq<(usize, usize)>, Seq<usize>)) -> Seq<char> {
    if has_char(tr.0, '%') && tr.1.len() > 0 {
        tr.0.subrange(0, tr.1[0].0 as int)
    } else {
        tr.0
    }
}

/// A text component with plain text `s`, no style and nothing following.
pub open spec fn is_plain_text(c: TextComponentBase, s: Seq<char>) -> bool {
    &&& c.content matches TextContent::Text { text } && text@ == s
    &&& c.style.is_plain()
    &&& c.extra@.len() == 0
}

/// `r` is `c` translated with `table`: a custom text becomes its translation's leading text,
/// followed by its parts (each argument translated) and then by its own following texts, each
/// translated; any other content stays; the following texts and the texts of the hover event
/// are translated; the rest of the style stays.
pub open spec fn translated_as(c: TextComponentBase, table: Seq<(String, Translation)>, r: TextComponentBase) -> bool
    decreases c,
{
    &&& same_plain_style(*c.style, *r.style)
    &&& translated_hover(c.style.hover_event, table, r.style.hover_event)
    &&& match c.content {
        TextContent::Custom { key, locale, with } => {
            let tr = translation_of(table, key@);
            let parts = slices_of(tr, with@.len() as int);
            &&& r.content matches TextContent::Text { text } && text@ == leading_text(tr)
            &&& r.extra@.len() == parts.len() + c.extra@.len()
            &&& forall|i: int|
                0 <= i < parts.len() ==> match #[trigger] parts[i] {
                    Slice::Argument(k) => 0 <= k < with@.len() && translated_as(
                        with[k],
                        table,
                        r.extra[i],
                    ),
                    Slice::Plain(s) => is_plain_text(r.extra[i], s),
                }
            &&& forall|j: int|
                0 <= j < c.extra@.len() ==> translated_as(
                    #[trigger] c.extra[j],
                    table,
                    r.extra[parts.len() + j],
                )
        },
        _ => {
            &&& same_content(c.content, r.content)
            &&& r.extra@.len() == c.extra@.len()
            &&& forall|j: int|
                0 <= j < c.extra@.len() ==> translated_as(#[trigger] c.extra[j], table, r.extra[j])
        },
    }
}

/// `r` is the hover event `h` with its texts translated.
pub open spec fn translated_hover(h: Option<HoverEvent>, table: Seq<(String, Translation)>, r: Option<HoverEvent>) -> bool
    decreases h,
{
    match (h, r) {
        (None, None) => true,
        (Some(HoverEvent::ShowText { value: v1 }), Some(HoverEvent::ShowText { value: v2 })) =>
            v1@.len() == v2@.len() && forall|i: int|
            0 <= i < v1@.len() ==> translated_as(#[trigger] v1[i], table, v2[i]),
        (
            Some(HoverEvent::ShowItem { id: i1, count: c1 }),
            Some(HoverEvent::ShowItem { id: i2, count: c2 }),
        ) => i1@ == i2@ && c1 == c2,
        (
            Some(HoverEvent::ShowEntity { name: n1, id: i1, uuid: u1 }),
            Some(HoverEvent::ShowEntity { name: n2, id: i2, uuid: u2 }),
        ) => i1@ == i2@ && u1@ == u2@ && match (n1, n2) {
            (None, None) => true,
            (Some(x), Some(y)) => x@.len() == y@.len() && forall|i: int|
                0 <= i < x@.len() ==> translated_as(#[trigger] x[i], table, y[i]),
            _ => false,
        },
        _ => false,
    }
}

/// Whether a text holds the character `c`.
fn contains_char(s: &str, c: char) -> (r: bool)
    ensures
        r == has_char(s@, c),
{
    let n = s.unicode_len();
    let mut i: usize = 0;
    while i < n
        invariant
            0 <= i <= n,
            n == s@.len(),
            forall|k: int| 0 <= k < i ==> s@[k] != c,
        decreases n - i,
    {
        if s.get_char(i) == c {
            return true;
        }
        i += 1;
    }
    false
}

/// A text component of plain text, with no style and nothing following.
fn plain_text(s: &str) -> (r: TextComponentBase)
    ensures
        is_plain_text(r, s@),
{
    TextComponentBase {
        content: TextContent::Text { text: String::from_str(s) },
        style: Box::new(Style::default()),
        extra: Vec::new(),
    }
}

/// A translation found in a table of well-formed translations is well formed.
proof fn lemma_lookup_wf(table: Seq<(String, Translation)>, key: Seq<char>)
    requires
        forall|i: int| 0 <= i < table.len() ==> (#[trigger] table[i]).1.wf(),
    ensures
        lookup(table, key) matches Some(t) ==> t.wf(),
    decreases table.len(),
{
    if table.len() > 0 && table[0].0@ != key {
        assert forall|i: int| 0 <= i < table.drop_first().len() implies (#[trigger] table.drop_first()[i]).1.wf() by {
            assert(table.drop_first()[i] == table[i + 1]);
        }
        lemma_lookup_wf(table.drop_first(), key);
    }
}

impl TranslationTable {
    /// The entries, in the order they were added.
    pub closed spec fn entries_spec(&self) -> Seq<(String, Translation)> {
        self.entries@
    }

    /// Every translation is well formed.
    pub closed spec fn wf(&self) -> bool {
        forall|i: int| 0 <= i < self.entries@.len() ==> (#[trigger] self.entries@[i]).1.wf()
    }

    /// A table with no translations.
    pub fn new() -> (r: Self)
        ensures
            r.wf(),
            r.entries_spec().len() == 0,
    {
        TranslationTable { entries: Vec::new() }
    }

    /// Adds the translation of a key; a key added twice keeps its first translation.
    pub fn add(&mut self, key: String, translation: Translation)
        requires
            old(self).wf(),
            translation.wf(),
        ensures
            final(self).wf(),
            final(self).entries_spec() == old(self).entries_spec().push((key, translation)),
    {
        self.entries.push((key, translation));
    }
}

/// Translates each of a list of text components.
fn translate_texts(v: &Vec<TextComponentBase>, table: &TranslationTable) -> (r: Vec<TextComponentBase>)
    requires
        table.wf(),
    ensures
        r@.len() == v@.len(),
        forall|i: int| 0 <= i < v@.len() ==> translated_as(#[trigger] v[i], table.entries_spec(), r[i]),
    decreases v, 0nat,
{
    let mut r: Vec<TextComponentBase> = Vec::new();
    let mut i: usize = 0;
    while i < v.len()
        invariant
            0 <= i <= v@.len(),
            table.wf(),
            r@.len() == i,
            forall|k: int| 0 <= k < i ==> translated_as(#[trigger] v[k], table.entries_spec(), r[k]),
        decreases v@.len() - i,
    {
        proof {
            vstd::std_specs::vec::axiom_vec_index_decreases(*v, i as int);
        }
        let c = translate(&v[i], table);
        r.push(c);
        i += 1;
    }
    r
}

/// Translates the texts of a hover event.
fn translate_hover(h: &Option<HoverEvent>, table: &TranslationTable) -> (r: Option<HoverEvent>)
    requires
        table.wf(),
    ensures
        translated_hover(*h, table.entries_spec(), r),
    decreases h, 0nat,
{
    match h {
        None => None,
        Some(HoverEvent::ShowText { value }) => Some(
            HoverEvent::ShowText { value: translate_texts(value, table) },
        ),
        Some(HoverEvent::ShowItem { id, count }) => Some(
            HoverEvent::ShowItem { id: id.clone(), count: *count },
        ),
        Some(HoverEvent::ShowEntity { name, id, uuid }) => {
            let n = match name {
                Some(x) => Some(translate_texts(x, table)),
                None => None,
            };
            Some(HoverEvent::ShowEntity { name: n, id: id.clone(), uuid: uuid.clone() })
        },
    }
}

/// The parts of a list of slices are `out`: each argument translated, each plain text as a
/// plain text component.
pub open spec fn slices_done(
    parts: Seq<Slice>,
    with: Vec<TextComponentBase>,
    table: Seq<(String, Translation)>,
    out: Seq<TextComponentBase>,
) -> bool {
    &&& out.len() == parts.len()
    &&& forall|i: int|
        0 <= i < out.len() ==> match #[trigger] parts[i] {
            Slice::Argument(k) => 0 <= k < with@.len() && translated_as(with[k], table, out[i]),
            Slice::Plain(s) => is_plain_text(out[i], s),
        }
}

/// The leading text and the parts of the custom text `c`, translated with `table`.
fn translate_custom(c: &TextComponentBase, table: &TranslationTable) -> (r: (String, Vec<TextComponentBase>))
    requires
        table.wf(),
        c.content is Custom,
    ensures
        ({
            let tr = translation_of(table.entries_spec(), c.content->Custom_key@);
            &&& r.0@ == leading_text(tr)
            &&& slices_done(slices_of(tr, c.content->Custom_with@.len() as int), c.content->Custom_with, table.entries_spec(), r.1@)
        }),
    decreases c, 0nat,
{
    let key = match &c.content {
        TextContent::Custom { key, .. } => key,
        _ => { return (String::new(), Vec::new()); },
    };
    let with = match &c.content {
        TextContent::Custom { with, .. } => with,
        _ => { return (String::new(), Vec::new()); },
    };
    let found = find_field(&table.entries, key.as_str());
    proof {
        lemma_lookup_wf(table.entries_spec(), key@);
    }
    let no_ranges: Vec<(usize, usize)> = Vec::new();
    let no_order: Vec<usize> = Vec::new();
    let (text, ranges, order): (&String, &Vec<(usize, usize)>, &Vec<usize>) = match found {
        Some(t) => (&t.text, &t.ranges, &t.order),
        None => (key, &no_ranges, &no_order),
    };
    let ghost tr = translation_of(table.entries_spec(), key@);
    assert(tr == (text@, ranges@, order@));
    let mut leading = text.clone();
    let mut out: Vec<TextComponentBase> = Vec::new();
    if !contains_char(text.as_str(), '%') {
        return (leading, out);
    }
    let n = text.unicode_len();
    let mut idx: usize = 0;
    while idx < ranges.len()
        invariant
            0 <= idx <= ranges@.len(),
            n == text@.len(),
            table.wf(),
            c.content is Custom,
            *with == c.content->Custom_with,
            tr == (text@, ranges@, order@),
            order@.len() == ranges@.len(),
            forall|k: int|
                0 <= k < ranges@.len() ==> (#[trigger] ranges@[k]).0 <= ranges@[k].1
                    && ranges@[k].1 < text@.len(),
            forall|k: int|
                0 <= k < ranges@.len() - 1 ==> (#[trigger] ranges@[k]).1 < ranges@[k + 1].0,
            leading@ == if idx == 0 { text@ } else { text@.subrange(0, ranges@[0].0 as int) },
            slices_done(slices_upto(tr, with@.len() as int, idx as int), *with, table.entries_spec(), out@),
        decreases ranges@.len() - idx,
    {
        let (s, e) = ranges[idx];
        if idx == 0 {
            leading = String::from_str(text.substring_char(0, s));
        }
        let ghost before = out@;
        let ghost upto = slices_upto(tr, with@.len() as int, idx as int);
        let ghost at = slices_at(tr, with@.len() as int, idx as int);
        let k = order[idx];
        if k < with.len() {
            proof {
                let gc = c.content;
                assert(decreases_to!(*c => gc));
                assert(decreases_to!(gc => gc->Custom_with));
                vstd::std_specs::vec::axiom_vec_index_decreases(*with, k as int);
                assert(decreases_to!(*c => with[k as int]));
            }
            let t = translate(&with[k], table);
            out.push(t);
        } else {
            out.push(plain_text(text.substring_char(s, e + 1)));
        }
        if e < n - 1 {
            if idx == ranges.len() - 1 {
                out.push(plain_text(text.substring_char(e + 1, n)));
            } else {
                let next = ranges[idx + 1].0;
                out.push(plain_text(text.substring_char(e + 1, next)));
            }
        }
        proof {
            let now = slices_upto(tr, with@.len() as int, idx + 1);
            assert(now == upto + at);
            assert forall|i: int| 0 <= i < out@.len() implies match #[trigger] now[i] {
                Slice::Argument(k) => 0 <= k < with@.len() && translated_as(with[k], table.entries_spec(), out@[i]),
                Slice::Plain(s) => is_plain_text(out@[i], s),
            } by {
                if i < before.len() {
                    assert(now[i] == upto[i]);
                    assert(out@[i] == before[i]);
                } else {
                    assert(now[i] == at[i - before.len()]);
                }
            }
        }
        idx += 1;
    }
    (leading, out)
}

/// Translates a text component with `table`; see `translated_as`.
fn translate(c: &TextComponentBase, table: &TranslationTable) -> (r: TextComponentBase)
    requires
        table.wf(),
    ensures
        translated_as(*c, table.entries_spec(), r),
    decreases c, 1nat,
{
    let hover = translate_hover(&c.style.hover_event, table);
    let style = restyle(&c.style, hover);
    let is_custom = match &c.content {
        TextContent::Custom { .. } => true,
        _ => false,
    };
    if is_custom {
        let (leading, mut out) = translate_custom(c, table);
        let ghost old_out = out@;
        let ghost slice_count = out@.len();
        let mut j: usize = 0;
        while j < c.extra.len()
            invariant
                0 <= j <= c.extra@.len(),
                table.wf(),
                out@.len() == slice_count + j,
                forall|i: int| 0 <= i < slice_count ==> out@[i] == old_out[i],
                forall|i: int| 0 <= i < j ==> translated_as(#[trigger] c.extra[i], table.entries_spec(), out[slice_count + i]),
            decreases c.extra@.len() - j,
        {
            proof {
                vstd::std_specs::vec::axiom_vec_index_decreases(c.extra, j as int);
            }
            let t = translate(&c.extra[j], table);
            out.push(t);
            j += 1;
        }
        TextComponentBase { content: TextContent::Text { text: leading }, style: Box::new(style), extra: out }
    } else {
        let content = copy_content(&c.content);
        let extra = translate_texts(&c.extra, table);
        TextComponentBase { content, style: Box::new(style), extra }
    }
}

impl TextComponentBase {
    /// This text with every custom text in it, in its following texts and in its hover
    /// events, replaced by its translation in `table`; see `translated_as`.
    pub fn to_translated(self, table: &TranslationTable) -> (r: TextComponentBase)
        requires
            table.wf(),
        ensures
            translated_as(self, table.entries_spec(), r),
            no_custom(r),
    {
        let r = translate(&self, table);
        proof {
            lemma_translated_no_custom(self, table.entries_spec(), r);
        }
        r
    }
}

/// No custom text is left in a component, its following texts or the texts of its hover
/// events (the arguments of a `Translate` content are not looked at).
pub open spec fn no_custom(r: TextComponentBase) -> bool
    decreases r,
{
    &&& !(r.content is Custom)
    &&& forall|i: int| 0 <= i < r.extra@.len() ==> no_custom(#[trigger] r.extra[i])
    &&& match r.style.hover_event {
        Some(HoverEvent::ShowText { value }) => forall|i: int|
            0 <= i < value@.len() ==> no_custom(#[trigger] value[i]),
        Some(HoverEvent::ShowEntity { name: Some(n), .. }) => forall|i: int|
            0 <= i < n@.len() ==> no_custom(#[trigger] n[i]),
        _ => true,
    }
}

/// A translated text holds no custom text any more, outside the arguments of translation keys.
pub proof fn lemma_translated_no_custom(c: TextComponentBase, table: Seq<(String, Translation)>, r: TextComponentBase)
    requires
        translated_as(c, table, r),
    ensures
        no_custom(r),
    decreases c,
{
    match c.content {
        TextContent::Custom { key, locale, with } => {
            let tr = translation_of(table, key@);
            let parts = slices_of(tr, with@.len() as int);
            assert forall|i: int| 0 <= i < r.extra@.len() implies no_custom(#[trigger] r.extra[i]) by {
                if i < parts.len() {
                    match parts[i] {
                        Slice::Argument(k) => {
                            assert(decreases_to!(c => c.content));
                            assert(decreases_to!(c.content => with));
                            vstd::std_specs::vec::axiom_vec_index_decreases(with, k);
                            lemma_translated_no_custom(with[k], table, r.extra[i]);
                        },
                        Slice::Plain(s) => {
                            assert(is_plain_text(r.extra[i], s));
                        },
                    }
                } else {
                    let j = i - parts.len();
                    assert(translated_as(c.extra[j], table, r.extra[parts.len() + j]));
                    vstd::std_specs::vec::axiom_vec_index_decreases(c.extra, j);
                    lemma_translated_no_custom(c.extra[j], table, r.extra[i]);
                }
            }
        },
        _ => {
            assert forall|i: int| 0 <= i < r.extra@.len() implies no_custom(#[trigger] r.extra[i]) by {
                vstd::std_specs::vec::axiom_vec_index_decreases(c.extra, i);
                lemma_translated_no_custom(c.extra[i], table, r.extra[i]);
            }
        },
    }
    assert(translated_hover(c.style.hover_event, table, r.style.hover_event));
    match (c.style.hover_event, r.style.hover_event) {
        (Some(HoverEvent::ShowText { value: v1 }), Some(HoverEvent::ShowText { value: v2 })) => {
            assert(v1@.len() == v2@.len());
            assert forall|i: int| 0 <= i < v2@.len() implies no_custom(#[trigger] v2[i]) by {
                assert(decreases_to!(c => c.style));
                vstd::std_specs::vec::axiom_vec_index_decreases(v1, i);
                lemma_translated_no_custom(v1[i], table, v2[i]);
            }
        },
        (
            Some(HoverEvent::ShowEntity { name: Some(n1), .. }),
            Some(HoverEvent::ShowEntity { name: Some(n2), .. }),
        ) => {
            assert(n1@.len() == n2@.len());
            assert forall|i: int| 0 <= i < n2@.len() implies no_custom(#[trigger] n2[i]) by {
                vstd::std_specs::vec::axiom_vec_index_decreases(n1, i);
                lemma_translated_no_custom(n1[i], table, n2[i]);
            }
        },
        _ => {},
    }
}

/// Translating a text with no custom text left gives the same text.
pub proof fn lemma_translation_settled(r: TextComponentBase, table: Seq<(String, Translation)>, r2: TextComponentBase)
    requires
        no_custom(r),
        translated_as(r, table, r2),
    ensures
        same_text(r, r2),
    decreases r,
{
    assert(!(r.content is Custom));
    assert forall|j: int| 0 <= j < r.extra@.len() implies same_text(#[trigger] r.extra[j], r2.extra[j]) by {
        vstd::std_specs::vec::axiom_vec_index_decreases(r.extra, j);
        assert(no_custom(r.extra[j]));
        lemma_translation_settled(r.extra[j], table, r2.extra[j]);
    }
    assert(translated_hover(r.style.hover_event, table, r2.style.hover_event));
    match (r.style.hover_event, r2.style.hover_event) {
        (Some(HoverEvent::ShowText { value: v1 }), Some(HoverEvent::ShowText { value: v2 })) => {
            assert forall|i: int| 0 <= i < v1@.len() implies same_text(#[trigger] v1[i], v2[i]) by {
                assert(decreases_to!(r => r.style));
                vstd::std_specs::vec::axiom_vec_index_decreases(v1, i);
                assert(no_custom(v1[i]));
                lemma_translation_settled(v1[i], table, v2[i]);
            }
            assert(same_hover(r.style.hover_event, r2.style.hover_event));
        },
        (
            Some(HoverEvent::ShowEntity { name: Some(n1), .. }),
            Some(HoverEvent::ShowEntity { name: Some(n2), .. }),
        ) => {
            assert forall|i: int| 0 <= i < n1@.len() implies same_text(#[trigger] n1[i], n2[i]) by {
                vstd::std_specs::vec::axiom_vec_index_decreases(n1, i);
                assert(no_custom(n1[i]));
                lemma_translation_settled(n1[i], table, n2[i]);
            }
            assert(same_hover(r.style.hover_event, r2.style.hover_event));
        },
        _ => {
            assert(same_hover(r.style.hover_event, r2.style.hover_event));
        },
    }
    assert(same_content(r.content, r2.content));
    assert(same_plain_style(*r.style, *r2.style));
}

/// Translating twice gives the same text as translating once: whatever `c` translates to
/// translates to itself.
pub proof fn lemma_translate_twice(
    c: TextComponentBase,
    table: Seq<(String, Translation)>,
    once: TextComponentBase,
    twice: TextComponentBase,
)
    requires
        translated_as(c, table, once),
        translated_as(once, table, twice),
    ensures
        same_text(once, twice),
{
    lemma_translated_no_custom(c, table, once);
    lemma_translation_settled(once, table, twice);
}

impl Clone for TextComponentBase {
    /// A copy with everything in it.
    fn clone(&self) -> (r: Self)
        ensures
            same_text(*self, r),
    {
        copy_text(self)
    }
}

impl Clone for TextComponent {
    /// A copy with everything in it.
    fn clone(&self) -> (r: Self)
        ensures
            same_text(self.0, r.0),
    {
        TextComponent(copy_text(&self.0))
    }
}

impl Clone for TextContent {
    /// A copy with everything in it.
    fn clone(&self) -> (r: Self)
        ensures
            same_content(*self, r),
    {
        copy_content(self)
    }
}

impl Clone for Style {
    /// A copy with everything in it.
    fn clone(&self) -> (r: Self)
        ensures
            same_plain_style(*self, r),
            same_hover(self.hover_event, r.hover_event),
    {
        let hover = copy_hover(&self.hover_event);
        restyle(self, hover)
    }
}

impl Clone for HoverEvent {
    /// A copy with everything in it.
    fn clone(&self) -> (r: Self)
        ensures
            same_hover(Some(*self), Some(r)),
    {
        match self {
            HoverEvent::ShowText { value } => HoverEvent::ShowText { value: copy_texts(value) },
            HoverEvent::ShowItem { id, count } => HoverEvent::ShowItem { id: id.clone(), count: *count },
            HoverEvent::ShowEntity { name, id, uuid } => {
                let n = match name {
                    Some(x) => Some(copy_texts(x)),
                    None => None,
                };
                HoverEvent::ShowEntity { name: n, id: id.clone(), uuid: uuid.clone() }
            },
        }
    }
}

} // verus!
