use vstd::prelude::*;

verus! {

/// The text that `s` becomes when each occurrence of `from` is replaced by `to`, scanning
/// from the left and never matching inside a replacement.
pub open spec fn replace_all(s: Seq<char>, from: Seq<char>, to: Seq<char>) -> Seq<char>
    recommends
        from.len() > 0,
    decreases s.len(),
{
    if from.len() == 0 || s.len() < from.len() {
        s
    } else if s.take(from.len() as int) == from {
        to + replace_all(s.skip(from.len() as int), from, to)
    } else {
        seq![s[0]] + replace_all(s.skip(1), from, to)
    }
}

/// Whether `s` holds `pat` at position `i`.
fn matches_at(s: &Vec<char>, i: usize, pat: &Vec<char>) -> (r: bool)
    requires
        i + pat@.len() <= s@.len(),
    ensures
        r == (s@.subrange(i as int, i + pat@.len()) == pat@),
{
    let mut k: usize = 0;
    while k < pat.len()
        invariant
            0 <= k <= pat@.len(),
            i + pat@.len() <= s@.len(),
            forall|j: int| 0 <= j < k ==> s@[i + j] == pat@[j],
        decreases pat@.len() - k,
    {
        assert(i + k < s.len());
        if s[i + k] != pat[k] {
            assert(s@.subrange(i as int, i + pat@.len())[k as int] != pat@[k as int]);
            return false;
        }
        k += 1;
    }
    assert(s@.subrange(i as int, i + pat@.len()) =~= pat@);
    true
}

/// The characters of a string, in order.
fn chars_of(s: &str) -> (r: Vec<char>)
    ensures
        r@ == s@,
{
    let mut r: Vec<char> = Vec::new();
    let n = s.unicode_len();
    let mut i: usize = 0;
    while i < n
        invariant
            0 <= i <= n,
            n == s@.len(),
            r@ == s@.take(i as int),
        decreases n - i,
    {
        r.push(s.get_char(i));
        assert(r@ =~= s@.take(i as int + 1));
        i += 1;
    }
    assert(s@.take(n as int) =~= s@);
    r
}

/// Replaces each occurrence of `from` in `s` by `to`, from the left.
pub fn replace_text(s: &str, from: &str, to: &str) -> (r: String)
    requires
        from@.len() > 0,
    ensures
        r@ == replace_all(s@, from@, to@),
{
    let cs = chars_of(s);
    let pat = chars_of(from);
    let mut out = String::new();
    let mut i: usize = 0;
    proof {
        assert(s@.skip(0) =~= s@);
    }
    while i < cs.len()
        invariant
            0 <= i <= cs@.len(),
            cs@ == s@,
            pat@ == from@,
            pat@.len() > 0,
            out@ + replace_all(s@.skip(i as int), from@, to@) == replace_all(s@, from@, to@),
        decreases cs@.len() - i,
    {
        let ghost rest = s@.skip(i as int);
        if pat.len() <= cs.len() - i && matches_at(&cs, i, &pat) {
            assert(rest.take(from@.len() as int) =~= s@.subrange(i as int, i + from@.len()));
            assert(rest.skip(from@.len() as int) =~= s@.skip(i + from@.len()));
            let ghost before = out@;
            out.append(to);
            assert(out@ == before + to@);
            assert(out@ + replace_all(s@.skip(i + from@.len()), from@, to@) =~= before
                + replace_all(rest, from@, to@));
            i += pat.len();
        } else {
            proof {
                if rest.len() >= from@.len() {
                    assert(rest.take(from@.len() as int) =~= s@.subrange(i as int, i + from@.len()));
                }
            }
            assert(rest.skip(1) =~= s@.skip(i + 1));
            assert(rest[0] == cs@[i as int]);
            let ghost before = out@;
            let one = s.substring_char(i, i + 1);
            out.append(one);
            assert(one@ =~= seq![rest[0]]);
            assert(out@ =~= before + seq![rest[0]]);
            assert(out@ + replace_all(s@.skip(i + 1), from@, to@) =~= before + replace_all(
                rest,
                from@,
                to@,
            ));
            i += 1;
        }
    }
    assert(s@.skip(i as int).len() == 0);
    assert(replace_all(s@.skip(i as int), from@, to@) =~= Seq::<char>::empty());
    assert(out@ =~= out@ + Seq::<char>::empty());
    out
}

/// Names the text that `str::to_lowercase` gives for `s`.
pub uninterp spec fn lowercase(s: Seq<char>) -> Seq<char>;

/// Lower-cases a text with `str::to_lowercase`, which maps each character to its Unicode lower
/// case; the result is named, not stated.
#[verifier::external_body]
fn to_lower(s: &str) -> (r: String)
    ensures
        r@ == lowercase(s@),
{
    s.to_lowercase()
}

/// A named text color.
#[derive(Debug, Clone, Copy, PartialEq, Eq, Hash, Structural)]
pub enum NamedColor {
    Black,
    DarkBlue,
    DarkGreen,
    DarkAqua,
    DarkRed,
    DarkPurple,
    Gold,
    Gray,
    DarkGray,
    Blue,
    Green,
    Aqua,
    Red,
    LightPurple,
    Yellow,
    White,
}

/// A color given by its red, green and blue parts.
#[derive(Debug, Clone, Copy, PartialEq, Eq, Hash, Structural)]
pub struct RGBColor {
    pub red: u8,
    pub green: u8,
    pub blue: u8,
}

/// A color with transparency, used for text shadows.
#[derive(Debug, Clone, Copy, PartialEq, Eq, Hash, Structural)]
pub struct ARGBColor {
    pub alpha: u8,
    pub red: u8,
    pub green: u8,
    pub blue: u8,
}

/// The color of a text.
#[derive(Debug, Clone, Copy, PartialEq, Eq, Hash, Structural)]
pub enum Color {
    /// Resets the color to the default.
    Reset,
    Named(NamedColor),
    Rgb(RGBColor),
}

/// The language a custom text is shown in.
#[derive(Debug, Clone, Copy, PartialEq, Eq, Hash, Structural)]
pub enum Locale {
    EnUs,
}

/// What happens when a player clicks on a text.
#[derive(Debug, Clone, PartialEq, Eq, Hash)]
pub enum ClickEvent {
    OpenUrl { url: String },
    RunCommand { command: String },
    SuggestCommand { command: String },
    ChangePage { page: i32 },
    CopyToClipboard { value: String },
}

/// What is shown when a player hovers over a text.
#[derive(Debug, PartialEq, Eq, Hash)]
pub enum HoverEvent {
    ShowText { value: Vec<TextComponentBase> },
    ShowItem { id: String, count: Option<i32> },
    ShowEntity { name: Option<Vec<TextComponentBase>>, id: String, uuid: String },
}

/// The style of a text; an unset field takes the parent's value.
#[derive(Debug, PartialEq, Eq, Hash)]
pub struct Style {
    pub color: Option<Color>,
    pub bold: Option<bool>,
    pub italic: Option<bool>,
    pub underlined: Option<bool>,
    pub strikethrough: Option<bool>,
    pub obfuscated: Option<bool>,
    /// Text inserted into the chat input when the text is shift-clicked.
    pub insertion: Option<String>,
    pub click_event: Option<ClickEvent>,
    pub hover_event: Option<HoverEvent>,
    /// The font, as an identifier.
    pub font: Option<String>,
    pub shadow_color: Option<ARGBColor>,
}

impl Style {
    /// No field set.
    pub open spec fn is_plain(&self) -> bool {
        &&& self.color is None
        &&& self.bold is None
        &&& self.italic is None
        &&& self.underlined is None
        &&& self.strikethrough is None
        &&& self.obfuscated is None
        &&& self.insertion is None
        &&& self.click_event is None
        &&& self.hover_event is None
        &&& self.font is None
        &&& self.shadow_color is None
    }
}

impl Default for Style {
    fn default() -> (r: Self)
        ensures
            r.is_plain(),
    {
        Style {
            color: None,
            bold: None,
            italic: None,
            underlined: None,
            strikethrough: None,
            obfuscated: None,
            insertion: None,
            click_event: None,
            hover_event: None,
            font: None,
            shadow_color: None,
        }
    }
}

/// What a text component shows.
#[derive(Debug, PartialEq, Eq, Hash)]
pub enum TextContent {
    /// Plain text.
    Text { text: String },
    /// A translation key with its arguments.
    Translate { translate: String, with: Vec<TextComponentBase> },
    /// The names of the entities a selector finds.
    EntityNames { selector: String, separator: Option<String> },
    /// A key binding.
    Keybind { keybind: String },
    /// A translation key of a given namespace, shown in a given language.
    Custom { key: String, locale: Locale, with: Vec<TextComponentBase> },
}

/// A text with its style and the texts that follow it.
#[derive(Debug, PartialEq, Eq, Hash)]
pub struct TextComponentBase {
    pub content: TextContent,
    pub style: Box<Style>,
    /// Texts appended after this one, inheriting its style.
    pub extra: Vec<TextComponentBase>,
}

/// A text component.
#[derive(Debug, PartialEq, Eq, Hash)]
pub struct TextComponent(pub TextComponentBase);

/// The bases of a list of components, in order.
pub open spec fn bases_of(with: Seq<TextComponent>) -> Seq<TextComponentBase> {
    with.map_values(|c: TextComponent| c.0)
}

/// Takes the base out of each component, keeping the order.
fn into_bases(with: Vec<TextComponent>) -> (r: Vec<TextComponentBase>)
    ensures
        r@ == bases_of(with@),
{
    let mut with = with;
    let ghost all = with@;
    let mut r: Vec<TextComponentBase> = Vec::new();
    while with.len() > 0
        invariant
            r@ + bases_of(with@) == bases_of(all),
        decreases with@.len(),
    {
        let ghost before = with@;
        let c = with.remove(0);
        assert(bases_of(before) =~= seq![c.0] + bases_of(with@));
        let ghost rb = r@;
        r.push(c.0);
        assert(r@ + bases_of(with@) =~= rb + bases_of(before));
    }
    assert(bases_of(with@) =~= Seq::<TextComponentBase>::empty());
    assert(r@ =~= r@ + bases_of(with@));
    r
}

impl TextComponent {
    /// Whether `self` is `old` with the style replaced by `style`.
    pub open spec fn restyled(self, old: TextComponent, style: Style) -> bool {
        &&& self.0.content == old.0.content
        &&& self.0.extra@ == old.0.extra@
        &&& *self.0.style == style
    }

    /// Whether the component shows `content` with no style and no extra texts.
    pub open spec fn is_bare(self, content: TextContent) -> bool {
        &&& self.0.content == content
        &&& self.0.style.is_plain()
        &&& self.0.extra@.len() == 0
    }

    /// A plain text.
    pub fn text(plain: String) -> (r: Self)
        ensures
            r.is_bare(TextContent::Text { text: plain }),
    {
        TextComponent::from_content(TextContent::Text { text: plain })
    }

    /// A translated text with its arguments.
    pub fn translate(key: String, with: Vec<TextComponent>) -> (r: Self)
        ensures
            r.0.style.is_plain(),
            r.0.extra@.len() == 0,
            r.0.content matches TextContent::Translate { translate, with: w } && translate == key
                && w@ == bases_of(with@),
    {
        let bases = into_bases(with);
        TextComponent::from_content(TextContent::Translate { translate: key, with: bases })
    }

    /// A translation key of a namespace, `namespace:key` in lower case, shown in `locale`.
    pub fn custom(namespace: String, key: String, locale: Locale, with: Vec<TextComponent>) -> (r: Self)
        ensures
            r.0.style.is_plain(),
            r.0.extra@.len() == 0,
            r.0.content matches TextContent::Custom { key: k, locale: l, with: w } && k@
                == lowercase(namespace@ + seq![':'] + key@) && l == locale && w@ == bases_of(with@),
    {
        let mut full = namespace;
        full.append(":");
        full.append(key.as_str());
        proof {
            reveal_strlit(":");
        }
        assert(full@ =~= namespace@ + seq![':'] + key@);
        let lowered = to_lower(full.as_str());
        let bases = into_bases(with);
        TextComponent::from_content(TextContent::Custom { key: lowered, locale, with: bases })
    }

    /// Appends a child text.
    pub fn add_child(self, child: TextComponent) -> (r: Self)
        ensures
            r.0.content == self.0.content,
            r.0.style == self.0.style,
            r.0.extra@ == self.0.extra@.push(child.0),
    {
        let mut s = self;
        s.0.extra.push(child.0);
        s
    }

    /// A component that shows `content`, unstyled.
    pub fn from_content(content: TextContent) -> (r: Self)
        ensures
            r.is_bare(content),
    {
        TextComponent(
            TextComponentBase { content, style: Box::new(Style::default()), extra: Vec::new() },
        )
    }

    /// Appends an unstyled plain text.
    pub fn add_text(self, text: String) -> (r: Self)
        ensures
            r.0.content == self.0.content,
            r.0.style == self.0.style,
            r.0.extra@.len() == self.0.extra@.len() + 1,
            r.0.extra@.drop_last() == self.0.extra@,
            r.0.extra@.last().content == (TextContent::Text { text }),
            r.0.extra@.last().style.is_plain(),
            r.0.extra@.last().extra@.len() == 0,
    {
        let child = TextComponent::text(text);
        let mut s = self;
        s.0.extra.push(child.0);
        assert(s.0.extra@.drop_last() =~= self.0.extra@);
        s
    }

    /// A plain text made from a chat format: `&` becomes `§`, `{DISPLAYNAME}` the player's
    /// name and `{MESSAGE}` the message.
    pub fn chat_decorated(format: String, player_name: String, content: String) -> (r: Self)
        ensures
            r.0.style.is_plain(),
            r.0.extra@.len() == 0,
            r.0.content is Text,
            r.0.content->Text_text@ == replace_all(
                replace_all(replace_all(format@, "&"@, "§"@), "{DISPLAYNAME}"@, player_name@),
                "{MESSAGE}"@,
                content@,
            ),
    {
        proof {
            reveal_strlit("&");
            reveal_strlit("{DISPLAYNAME}");
            reveal_strlit("{MESSAGE}");
        }
        let a = replace_text(format.as_str(), "&", "§");
        let b = replace_text(a.as_str(), "{DISPLAYNAME}", player_name.as_str());
        let c = replace_text(b.as_str(), "{MESSAGE}", content.as_str());
        TextComponent::text(c)
    }

    /// Sets the color.
    pub fn color(self, color: Color) -> (r: Self)
        ensures
            r.restyled(self, Style { color: Some(color), ..*self.0.style }),
    {
        let mut s = self;
        s.0.style.color = Some(color);
        s
    }

    /// Sets a named color.
    pub fn color_named(self, color: NamedColor) -> (r: Self)
        ensures
            r.restyled(self, Style { color: Some(Color::Named(color)), ..*self.0.style }),
    {
        let mut s = self;
        s.0.style.color = Some(Color::Named(color));
        s
    }

    /// Sets a color by its red, green and blue parts.
    pub fn color_rgb(self, color: RGBColor) -> (r: Self)
        ensures
            r.restyled(self, Style { color: Some(Color::Rgb(color)), ..*self.0.style }),
    {
        let mut s = self;
        s.0.style.color = Some(Color::Rgb(color));
        s
    }

    /// Makes the text bold.
    pub fn bold(self) -> (r: Self)
        ensures
            r.restyled(self, Style { bold: Some(true), ..*self.0.style }),
    {
        let mut s = self;
        s.0.style.bold = Some(true);
        s
    }

    /// Makes the text italic.
    pub fn italic(self) -> (r: Self)
        ensures
            r.restyled(self, Style { italic: Some(true), ..*self.0.style }),
    {
        let mut s = self;
        s.0.style.italic = Some(true);
        s
    }

    /// Underlines the text.
    pub fn underlined(self) -> (r: Self)
        ensures
            r.restyled(self, Style { underlined: Some(true), ..*self.0.style }),
    {
        let mut s = self;
        s.0.style.underlined = Some(true);
        s
    }

    /// Strikes the text through.
    pub fn strikethrough(self) -> (r: Self)
        ensures
            r.restyled(self, Style { strikethrough: Some(true), ..*self.0.style }),
    {
        let mut s = self;
        s.0.style.strikethrough = Some(true);
        s
    }

    /// Makes the text obfuscated.
    pub fn obfuscated(self) -> (r: Self)
        ensures
            r.restyled(self, Style { obfuscated: Some(true), ..*self.0.style }),
    {
        let mut s = self;
        s.0.style.obfuscated = Some(true);
        s
    }

    /// Sets the text inserted into the chat input on shift-click.
    pub fn insertion(self, text: String) -> (r: Self)
        ensures
            r.restyled(self, Style { insertion: Some(text), ..*self.0.style }),
    {
        let mut s = self;
        s.0.style.insertion = Some(text);
        s
    }

    /// Sets what a click does.
    pub fn click_event(self, event: ClickEvent) -> (r: Self)
        ensures
            r.restyled(self, Style { click_event: Some(event), ..*self.0.style }),
    {
        let mut s = self;
        s.0.style.click_event = Some(event);
        s
    }

    /// Sets what hovering shows.
    pub fn hover_event(self, event: HoverEvent) -> (r: Self)
        ensures
            r.restyled(self, Style { hover_event: Some(event), ..*self.0.style }),
    {
        let mut s = self;
        s.0.style.hover_event = Some(event);
        s
    }

    /// Sets the font.
    pub fn font(self, resource_location: String) -> (r: Self)
        ensures
            r.restyled(self, Style { font: Some(resource_location), ..*self.0.style }),
    {
        let mut s = self;
        s.0.style.font = Some(resource_location);
        s
    }

    /// Sets the shadow color.
    pub fn shadow_color(self, color: ARGBColor) -> (r: Self)
        ensures
            r.restyled(self, Style { shadow_color: Some(color), ..*self.0.style }),
    {
        let mut s = self;
        s.0.style.shadow_color = Some(color);
        s
    }
}

} // verus!
