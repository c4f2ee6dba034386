use std::rc::Rc;
use vstd::prelude::*;
use vstd::string::*;

use crate::color::{color_of, Color};
use crate::decimal::{decimal_of, parse_decimal, pow10, Decimal};

verus! {

/// A font as the text layout needs it: its name and vertical metrics.
pub struct Font {
    pub name: String,
    pub base: u32,
    pub line_height: u32,
}

/// The style that a theme gives to text before any markup applies.
#[derive(Copy, Clone, Debug, PartialEq, Eq, Structural)]
pub struct TextParams {
    pub color: Color,
    pub scale: Decimal,
}

/// The field that a directive sets.
#[derive(Copy, Clone, Debug, PartialEq, Eq, Structural)]
pub enum MarkupKind {
    Color,
    Scale,
    PosX,
    PosY,
    Image,
    Font,
}

/// The style of one run of text.
pub struct Markup {
    pub color: Color,
    pub scale: Decimal,
    pub pos_x: Option<Decimal>,
    pub pos_y: Option<Decimal>,
    pub image: Option<String>,
    pub font: Rc<Font>,
}

/// A [`Markup`] as a value.
pub struct MarkupView {
    pub color: Color,
    pub scale: Decimal,
    pub pos_x: Option<Decimal>,
    pub pos_y: Option<Decimal>,
    pub image: Option<Seq<char>>,
    pub font: Rc<Font>,
}

impl View for Markup {
    type V = MarkupView;

    open spec fn view(&self) -> MarkupView {
        MarkupView {
            color: self.color,
            scale: self.scale,
            pos_x: self.pos_x,
            pos_y: self.pos_y,
            image: match self.image {
                Some(s) => Some(s@),
                None => None,
            },
            font: self.font,
        }
    }
}

impl MarkupView {
    pub open spec fn wf(&self) -> bool {
        &&& self.scale.wf()
        &&& (self.pos_x matches Some(d) ==> d.wf())
        &&& (self.pos_y matches Some(d) ==> d.wf())
    }
}

/// The directive that a character opens, if any.
pub open spec fn tag_of(c: char) -> Option<MarkupKind> {
    if c == 'c' {
        Some(MarkupKind::Color)
    } else if c == 's' {
        Some(MarkupKind::Scale)
    } else if c == 'x' {
        Some(MarkupKind::PosX)
    } else if c == 'y' {
        Some(MarkupKind::PosY)
    } else if c == 'i' {
        Some(MarkupKind::Image)
    } else if c == 'f' {
        Some(MarkupKind::Font)
    } else {
        None
    }
}

/// A number value; text that is no number stands for one.
pub open spec fn number_or_one(buf: Seq<char>) -> Decimal {
    match decimal_of(buf) {
        Some(d) => d,
        None => Decimal { mantissa: 1, frac_digits: 0 },
    }
}

/// The first font of `fonts` with the given name.
pub open spec fn font_named(fonts: Seq<Rc<Font>>, name: Seq<char>) -> Option<Rc<Font>> {
    if exists|i: int| 0 <= i < fonts.len() && fonts[i].name@ == name {
        let i = choose|i: int|
            0 <= i < fonts.len() && fonts[i].name@ == name && forall|j: int|
                0 <= j < i ==> fonts[j].name@ != name;
        Some(fonts[i])
    } else {
        None
    }
}

/// The style after one directive of the given kind with value `buf`.
pub open spec fn apply_directive(
    m: MarkupView,
    kind: MarkupKind,
    buf: Seq<char>,
    fonts: Seq<Rc<Font>>,
) -> MarkupView {
    match kind {
        MarkupKind::Color => match color_of(buf) {
            Some(c) => MarkupView { color: c, ..m },
            None => m,
        },
        MarkupKind::Scale => MarkupView { scale: number_or_one(buf), ..m },
        MarkupKind::PosX => MarkupView { pos_x: Some(number_or_one(buf)), ..m },
        MarkupKind::PosY => MarkupView { pos_y: Some(number_or_one(buf)), ..m },
        MarkupKind::Image => MarkupView { image: Some(buf), ..m },
        MarkupKind::Font => match font_named(fonts, buf) {
            Some(f) => MarkupView { font: f, ..m },
            None => m,
        },
    }
}

/// The style, the open directive and its value so far, after the first `n`
/// characters of `text`.
pub open spec fn scan(text: Seq<char>, n: nat, start: MarkupView, fonts: Seq<Rc<Font>>) -> (
    MarkupView,
    Option<MarkupKind>,
    Seq<char>,
)
    decreases n,
{
    if n == 0 || n > text.len() {
        (start, None, Seq::empty())
    } else {
        let (m, open, buf) = scan(text, (n - 1) as nat, start, fonts);
        let c = text[n - 1];
        match open {
            None => (m, tag_of(c), Seq::empty()),
            Some(kind) => if c == '=' || c == ' ' {
                (m, open, buf)
            } else if c == ';' {
                (apply_directive(m, kind, buf, fonts), None, Seq::empty())
            } else {
                (m, open, buf.push(c))
            },
        }
    }
}

/// The style that `text` gives, starting from `start`; a directive still open at
/// the end is applied with what it holds.
pub open spec fn parsed(text: Seq<char>, start: MarkupView, fonts: Seq<Rc<Font>>) -> MarkupView {
    let (m, open, buf) = scan(text, text.len(), start, fonts);
    match open {
        Some(kind) => apply_directive(m, kind, buf, fonts),
        None => m,
    }
}

/// A directive whose value is no color, no number or no known font is
/// reported as a warning (the style keeps or defaults that field all the same).
pub open spec fn directive_warns(kind: MarkupKind, buf: Seq<char>, fonts: Seq<Rc<Font>>) -> bool {
    match kind {
        MarkupKind::Color => color_of(buf) is None,
        MarkupKind::Scale | MarkupKind::PosX | MarkupKind::PosY => decimal_of(buf) is None,
        MarkupKind::Image => false,
        MarkupKind::Font => font_named(fonts, buf) is None,
    }
}

/// The kinds of the directives closed by `;` within the first `n` characters
/// of `text` that warn, in order.
pub open spec fn warnings_upto(text: Seq<char>, n: nat, start: MarkupView, fonts: Seq<Rc<Font>>) -> Seq<
    MarkupKind,
>
    decreases n,
{
    if n == 0 || n > text.len() {
        Seq::empty()
    } else {
        let (m, open, buf) = scan(text, (n - 1) as nat, start, fonts);
        let w = warnings_upto(text, (n - 1) as nat, start, fonts);
        match open {
            Some(kind) => if text[n - 1] == ';' && directive_warns(kind, buf, fonts) {
                w.push(kind)
            } else {
                w
            },
            None => w,
        }
    }
}

/// The kinds of all directives of `text` that warn, in order, a directive
/// still open at the end included.
pub open spec fn markup_warnings(text: Seq<char>, start: MarkupView, fonts: Seq<Rc<Font>>) -> Seq<
    MarkupKind,
> {
    let (m, open, buf) = scan(text, text.len(), start, fonts);
    let w = warnings_upto(text, text.len(), start, fonts);
    match open {
        Some(kind) => if directive_warns(kind, buf, fonts) {
            w.push(kind)
        } else {
            w
        },
        None => w,
    }
}

/// The style that a run starts with: color, scale and font of `d`, nothing else.
pub open spec fn base_of(d: MarkupView) -> MarkupView {
    MarkupView { pos_x: None, pos_y: None, image: None, ..d }
}

/// Relies on String::push: the character is appended.
#[verifier::external_body]
fn push_char(s: &mut String, c: char)
    ensures
        final(s)@ == old(s)@.push(c),
{
    s.push(c)
}

fn number_or_one_exec(buf: &String) -> (r: Decimal)
    ensures
        r == number_or_one(buf@),
        r.wf(),
{
    match parse_decimal(buf.as_str()) {
        Some(d) => d,
        None => Decimal::one(),
    }
}

fn find_font(fonts: &Vec<Rc<Font>>, name: &String) -> (r: Option<Rc<Font>>)
    ensures
        r == font_named(fonts@, name@),
{
    let mut i: usize = 0;
    while i < fonts.len()
        invariant
            i <= fonts@.len(),
            forall|j: int| 0 <= j < i ==> fonts@[j].name@ != name@,
        decreases fonts@.len() - i,
    {
        if fonts[i].name == *name {
            let f = Rc::clone(&fonts[i]);
            proof {
                let k = choose|k: int|
                    0 <= k < fonts@.len() && fonts@[k].name@ == name@ && forall|j: int|
                        0 <= j < k ==> fonts@[j].name@ != name@;
                assert(0 <= i < fonts@.len() && fonts@[i as int].name@ == name@ && forall|j: int|
                    0 <= j < i ==> fonts@[j].name@ != name@);
                assert(k == i);
            }
            return Some(f);
        }
        i = i + 1;
    }
    None
}

/// Whether a directive of this kind with value `buf` warns.
pub fn directive_warning(kind: MarkupKind, buf: &String, fonts: &Vec<Rc<Font>>) -> (r: bool)
    ensures
        r == directive_warns(kind, buf@, fonts@),
{
    match kind {
        MarkupKind::Color => Color::from_string(buf.as_str()).is_none(),
        MarkupKind::Scale | MarkupKind::PosX | MarkupKind::PosY => parse_decimal(
            buf.as_str(),
        ).is_none(),
        MarkupKind::Image => false,
        MarkupKind::Font => find_font(fonts, buf).is_none(),
    }
}

impl Markup {
    /// The style that a theme's text parameters give, in the given font.
    pub fn from_text_params(defaults: &TextParams, font: &Rc<Font>) -> (r: Markup)
        ensures
            r.color == defaults.color,
            r.scale == defaults.scale,
            r.pos_x is None,
            r.pos_y is None,
            r.image is None,
            r.font == *font,
    {
        Markup {
            color: defaults.color,
            scale: defaults.scale,
            pos_x: None,
            pos_y: None,
            image: None,
            font: Rc::clone(font),
        }
    }

    /// A fresh style with the color, scale and font of `other`.
    pub fn from_other(other: &Markup) -> (r: Markup)
        ensures
            r@ == base_of(other@),
    {
        Markup {
            color: other.color,
            scale: other.scale,
            pos_x: None,
            pos_y: None,
            image: None,
            font: Rc::clone(&other.font),
        }
    }

    /// Applies one directive with value `buf`.
    pub fn parse_buf(&mut self, buf: &String, kind: MarkupKind, fonts: &Vec<Rc<Font>>)
        requires
            old(self)@.wf(),
        ensures
            final(self)@ == apply_directive(old(self)@, kind, buf@, fonts@),
            final(self)@.wf(),
    {
        match kind {
            MarkupKind::Color => {
                if let Some(c) = Color::from_string(buf.as_str()) {
                    self.color = c;
                }
            },
            MarkupKind::Scale => {
                self.scale = number_or_one_exec(buf);
            },
            MarkupKind::PosX => {
                self.pos_x = Some(number_or_one_exec(buf));
            },
            MarkupKind::PosY => {
                self.pos_y = Some(number_or_one_exec(buf));
            },
            MarkupKind::Image => {
                self.image = Some(buf.clone());
            },
            MarkupKind::Font => {
                if let Some(f) = find_font(fonts, buf) {
                    self.font = f;
                }
            },
        }
    }

    /// The style of a run: starts from the color, scale and font of `defaults`
    /// and applies each directive of `text` in turn, looking fonts up in `fonts`.
    /// Also gives the kinds of the directives that warned, in order.
    pub fn parse_with_warnings(text: &str, defaults: &Markup, fonts: &Vec<Rc<Font>>) -> (r: (
        Markup,
        Vec<MarkupKind>,
    ))
        requires
            defaults@.wf(),
        ensures
            r.0@ == parsed(text@, base_of(defaults@), fonts@),
            r.0@.wf(),
            r.1@ == markup_warnings(text@, base_of(defaults@), fonts@),
    {
        let mut warnings: Vec<MarkupKind> = Vec::new();
        let mut markup = Markup::from_other(defaults);
        let mut open: Option<MarkupKind> = None;
        let mut buf = String::new();
        let len = text.unicode_len();
        let ghost start = base_of(defaults@);
        let mut i: usize = 0;
        while i < len
            invariant
                i <= len,
                len == text@.len(),
                start == base_of(defaults@),
                scan(text@, i as nat, start, fonts@) == (markup@, open, buf@),
                markup@.wf(),
                warnings@ == warnings_upto(text@, i as nat, start, fonts@),
            decreases len - i,
        {
            let c = text.get_char(i);
            match open {
                None => {
                    open = if c == 'c' {
                        Some(MarkupKind::Color)
                    } else if c == 's' {
                        Some(MarkupKind::Scale)
                    } else if c == 'x' {
                        Some(MarkupKind::PosX)
                    } else if c == 'y' {
                        Some(MarkupKind::PosY)
                    } else if c == 'i' {
                        Some(MarkupKind::Image)
                    } else if c == 'f' {
                        Some(MarkupKind::Font)
                    } else {
                        None
                    };
                },
                Some(kind) => {
                    if c == '=' || c == ' ' {
                    } else if c == ';' {
                        if directive_warning(kind, &buf, fonts) {
                            warnings.push(kind);
                        }
                        markup.parse_buf(&buf, kind, fonts);
                        buf = String::new();
                        open = None;
                    } else {
                        push_char(&mut buf, c);
                    }
                },
            }
            i = i + 1;
        }
        if let Some(kind) = open {
            if directive_warning(kind, &buf, fonts) {
                warnings.push(kind);
            }
            markup.parse_buf(&buf, kind, fonts);
        }
        (markup, warnings)
    }

    /// The style of a run: starts from the color, scale and font of `defaults`
    /// and applies each directive of `text` in turn, looking fonts up in `fonts`.
    pub fn from_string(text: &str, defaults: &Markup, fonts: &Vec<Rc<Font>>) -> (r: Markup)
        requires
            defaults@.wf(),
        ensures
            r@ == parsed(text@, base_of(defaults@), fonts@),
            r@.wf(),
    {
        Markup::parse_with_warnings(text, defaults, fonts).0
    }

    /// How far glyphs of this run are raised so that scaled text keeps its
    /// baseline: `(scale - 1) * base / line_height`, as a numerator and a
    /// denominator.
    pub fn y_offset(&self) -> (r: (i128, i128))
        requires
            self.scale.wf(),
        ensures
            r.0 == (self.scale.mantissa - pow10(self.scale.frac_digits as nat)) * self.font.base,
            r.1 == pow10(self.scale.frac_digits as nat) * self.font.line_height,
    {
        let mut unit: i128 = 1;
        let mut k: u32 = 0;
        proof {
            crate::decimal::lemma_pow10_monotone(0, 18);
        }
        while k < self.scale.frac_digits
            invariant
                k <= self.scale.frac_digits <= 18,
                unit == pow10(k as nat),
                unit <= pow10(18),
            decreases self.scale.frac_digits - k,
        {
            proof {
                crate::decimal::lemma_pow10_monotone((k + 1) as nat, 18);
                reveal_with_fuel(pow10, 19);
                assert(pow10((k + 1) as nat) == unit * 10);
            }
            unit = unit * 10;
            k = k + 1;
        }
        proof {
            reveal_with_fuel(pow10, 19);
        }
        let base = self.font.base as i128;
        let line_height = self.font.line_height as i128;
        let num = self.scale.mantissa as i128 - unit;
        assert(-0x1_0000_0000_0000_0000i128 < num < 0x1_0000_0000_0000_0000i128);
        assert(num * base < 0x1_0000_0000_0000_0000_0000_0000i128) by (nonlinear_arith)
            requires
                num < 0x1_0000_0000_0000_0000i128,
                0 <= base < 0x1_0000_0000i128,
        ;
        assert(num * base > -0x1_0000_0000_0000_0000_0000_0000i128) by (nonlinear_arith)
            requires
                num > -0x1_0000_0000_0000_0000i128,
                0 <= base < 0x1_0000_0000i128,
        ;
        assert(unit * line_height < 0x1_0000_0000_0000_0000_0000_0000i128) by (nonlinear_arith)
            requires
                0 < unit < 0x1_0000_0000_0000_0000i128,
                0 <= line_height < 0x1_0000_0000i128,
        ;
        (num * base, unit * line_height)
    }
}

} // verus!
