use vstd::prelude::*;

verus! {

use crate::style::{Style, Weight, RGB};

/// The character of a decimal digit.
pub open spec fn digit_char(d: nat) -> char {
    if d == 0 {
        '0'
    } else if d == 1 {
        '1'
    } else if d == 2 {
        '2'
    } else if d == 3 {
        '3'
    } else if d == 4 {
        '4'
    } else if d == 5 {
        '5'
    } else if d == 6 {
        '6'
    } else if d == 7 {
        '7'
    } else if d == 8 {
        '8'
    } else {
        '9'
    }
}

/// `n` in decimal, without leading zeros.
pub open spec fn decimal(n: nat) -> Seq<char>
    decreases n,
{
    if n < 10 {
        seq![digit_char(n)]
    } else {
        decimal(n / 10) + seq![digit_char(n % 10)]
    }
}

/// A true-colour parameter: `<selector>;2;R;G;B`.
pub open spec fn color_code(selector: Seq<char>, c: RGB) -> Seq<char> {
    selector + seq![';', '2', ';'] + decimal(c[0] as nat) + seq![';'] + decimal(c[1] as nat) + seq![
        ';',
    ] + decimal(c[2] as nat)
}

/// The SGR parameters of a style, in their fixed order: foreground,
/// background, weight, underline, strike-through, italic.
pub open spec fn sgr_codes(s: Style) -> Seq<Seq<char>> {
    sgr_fg(s) + sgr_bg(s) + sgr_weight(s) + sgr_flag(s.underline, '4') + sgr_flag(
        s.strike_through,
        '9',
    ) + sgr_flag(s.italic, '3')
}

pub open spec fn sgr_fg(s: Style) -> Seq<Seq<char>> {
    match s.fg {
        Some(c) => seq![color_code(seq!['3', '8'], c)],
        None => Seq::empty(),
    }
}

pub open spec fn sgr_bg(s: Style) -> Seq<Seq<char>> {
    match s.bg {
        Some(c) => seq![color_code(seq!['4', '8'], c)],
        None => Seq::empty(),
    }
}

pub open spec fn sgr_weight(s: Style) -> Seq<Seq<char>> {
    match s.weight {
        Weight::Bold => seq![seq!['1']],
        Weight::Faint => seq![seq!['2']],
        Weight::Normal => Seq::empty(),
    }
}

/// The one-digit parameter `code` if `on`, else nothing.
pub open spec fn sgr_flag(on: bool, code: char) -> Seq<Seq<char>> {
    if on {
        seq![seq![code]]
    } else {
        Seq::empty()
    }
}

/// The parameters joined with `;`.
pub open spec fn join_codes(l: Seq<Seq<char>>) -> Seq<char>
    decreases l.len(),
{
    if l.len() == 0 {
        Seq::empty()
    } else if l.len() == 1 {
        l[0]
    } else {
        join_codes(l.drop_last()) + seq![';'] + l.last()
    }
}

/// `ESC [ <codes> m <text> ESC [ 0 m`.
pub open spec fn render_spec(s: Style, text: Seq<char>) -> Seq<char> {
    seq!['\x1b', '['] + join_codes(sgr_codes(s)) + seq!['m'] + text + seq!['\x1b', '[', '0', 'm']
}

fn digit_str(d: u8) -> (r: &'static str)
    requires
        d < 10,
    ensures
        r@ == seq![digit_char(d as nat)],
{
    proof {
        reveal_strlit("0");
        reveal_strlit("1");
        reveal_strlit("2");
        reveal_strlit("3");
        reveal_strlit("4");
        reveal_strlit("5");
        reveal_strlit("6");
        reveal_strlit("7");
        reveal_strlit("8");
        reveal_strlit("9");
    }
    if d == 0 {
        "0"
    } else if d == 1 {
        "1"
    } else if d == 2 {
        "2"
    } else if d == 3 {
        "3"
    } else if d == 4 {
        "4"
    } else if d == 5 {
        "5"
    } else if d == 6 {
        "6"
    } else if d == 7 {
        "7"
    } else if d == 8 {
        "8"
    } else {
        "9"
    }
}

fn append_decimal(out: &mut String, v: u8)
    ensures
        final(out)@ == old(out)@ + decimal(v as nat),
{
    proof {
        reveal_with_fuel(decimal, 3);
    }
    if v >= 100 {
        out.append(digit_str(v / 100));
        assert(decimal(v as nat / 10) == decimal(v as nat / 100) + seq![
            digit_char((v as nat / 10) % 10),
        ]);
    }
    if v >= 10 {
        out.append(digit_str((v / 10) % 10));
    }
    out.append(digit_str(v % 10));
    assert(final(out)@ =~= old(out)@ + decimal(v as nat));
}

fn color_string(selector: &str, c: &RGB) -> (out: String)
    ensures
        out@ == color_code(selector@, *c),
{
    let mut out = String::new();
    proof {
        reveal_strlit(";2;");
        reveal_strlit(";");
    }
    out.append(selector);
    out.append(";2;");
    append_decimal(&mut out, c[0]);
    out.append(";");
    append_decimal(&mut out, c[1]);
    out.append(";");
    append_decimal(&mut out, c[2]);
    assert(out@ =~= color_code(selector@, *c));
    out
}

proof fn lemma_join_push(l: Seq<Seq<char>>, c: Seq<char>)
    ensures
        join_codes(l.push(c)) == (if l.len() == 0 {
            c
        } else {
            join_codes(l) + seq![';'] + c
        }),
{
    assert(l.push(c).drop_last() =~= l);
}

/// Appends `code` to the `;`-joined parameters `codes`, which join `l`.
fn push_code(codes: &mut String, any: bool, code: &str, Ghost(l): Ghost<Seq<Seq<char>>>)
    requires
        old(codes)@ == join_codes(l),
        any == (l.len() > 0),
    ensures
        final(codes)@ == join_codes(l.push(code@)),
{
    proof {
        reveal_strlit(";");
        lemma_join_push(l, code@);
    }
    if any {
        codes.append(";");
    }
    codes.append(code);
}

/// A piece of text together with the style it is drawn in.
#[derive(Debug, Clone)]
pub struct Span {
    pub text: String,
    pub style: Style,
}

/// The SGR parameters of `s`, joined with `;`.
fn sgr_string(s: &Style) -> (codes: String)
    ensures
        codes@ == join_codes(sgr_codes(*s)),
{
    let mut codes = String::new();
    let mut any = false;
    let ghost mut l: Seq<Seq<char>> = Seq::empty();
    proof {
        reveal_strlit("38");
        reveal_strlit("48");
        assert("38"@ =~= seq!['3', '8']);
        assert("48"@ =~= seq!['4', '8']);
    }
    if let Some(c) = &s.fg {
        let code = color_string("38", c);
        push_code(&mut codes, any, code.as_str(), Ghost(l));
        proof { l = l.push(code@); }
        any = true;
    }
    if let Some(c) = &s.bg {
        let code = color_string("48", c);
        push_code(&mut codes, any, code.as_str(), Ghost(l));
        proof { l = l.push(code@); }
        any = true;
    }
    assert(l =~= sgr_fg(*s) + sgr_bg(*s));
    match s.weight {
        Weight::Bold => {
            proof { reveal_strlit("1"); assert("1"@ =~= seq!['1']); }
            push_code(&mut codes, any, "1", Ghost(l));
            proof { l = l.push("1"@); }
            any = true;
        },
        Weight::Faint => {
            proof { reveal_strlit("2"); assert("2"@ =~= seq!['2']); }
            push_code(&mut codes, any, "2", Ghost(l));
            proof { l = l.push("2"@); }
            any = true;
        },
        Weight::Normal => {},
    }
    assert(l =~= sgr_fg(*s) + sgr_bg(*s) + sgr_weight(*s));
    if s.underline {
        proof { reveal_strlit("4"); assert("4"@ =~= seq!['4']); }
        push_code(&mut codes, any, "4", Ghost(l));
        proof { l = l.push("4"@); }
        any = true;
    }
    if s.strike_through {
        proof { reveal_strlit("9"); assert("9"@ =~= seq!['9']); }
        push_code(&mut codes, any, "9", Ghost(l));
        proof { l = l.push("9"@); }
        any = true;
    }
    if s.italic {
        proof { reveal_strlit("3"); assert("3"@ =~= seq!['3']); }
        push_code(&mut codes, any, "3", Ghost(l));
        proof { l = l.push("3"@); }
    }
    assert(l =~= sgr_codes(*s));
    codes
}

impl Span {
    pub fn new(text: String) -> (s: Span)
        ensures
            s.text == text,
            s.style.is_plain(),
    {
        Span { text, style: Style::plain() }
    }

    pub fn with_style(text: String, style: Style) -> (s: Span)
        ensures
            s.text == text,
            s.style == style,
    {
        Span { text, style }
    }

    pub fn add_style(&mut self, style: Style)
        ensures
            final(self).text == old(self).text,
            final(self).style == style,
    {
        self.style = style;
    }

    pub fn fg(self, r: u8, g: u8, b: u8) -> (s: Span)
        ensures
            s.text == self.text,
            s.style == (Style { fg: Some([r, g, b]), ..self.style }),
    {
        Span { style: self.style.fg(r, g, b), ..self }
    }

    pub fn set_fg(&mut self, r: u8, g: u8, b: u8)
        ensures
            final(self).text == old(self).text,
            final(self).style == (Style { fg: Some([r, g, b]), ..old(self).style }),
    {
        self.style.set_fg(r, g, b)
    }

    pub fn reset_fg(&mut self)
        ensures
            final(self).text == old(self).text,
            final(self).style == (Style { fg: None, ..old(self).style }),
    {
        self.style.reset_fg()
    }

    pub fn get_fg(&self) -> (c: &Option<RGB>)
        ensures
            *c == self.style.fg,
    {
        self.style.get_fg()
    }

    pub fn bg(self, r: u8, g: u8, b: u8) -> (s: Span)
        ensures
            s.text == self.text,
            s.style == (Style { bg: Some([r, g, b]), ..self.style }),
    {
        Span { style: self.style.bg(r, g, b), ..self }
    }

    pub fn set_bg(&mut self, r: u8, g: u8, b: u8)
        ensures
            final(self).text == old(self).text,
            final(self).style == (Style { bg: Some([r, g, b]), ..old(self).style }),
    {
        self.style.set_bg(r, g, b)
    }

    pub fn reset_bg(&mut self)
        ensures
            final(self).text == old(self).text,
            final(self).style == (Style { bg: None, ..old(self).style }),
    {
        self.style.reset_bg()
    }

    pub fn get_bg(&self) -> (c: &Option<RGB>)
        ensures
            *c == self.style.bg,
    {
        self.style.get_bg()
    }

    pub fn weight(self, weight: Weight) -> (s: Span)
        ensures
            s.text == self.text,
            s.style == (Style { weight, ..self.style }),
    {
        Span { style: self.style.weight(weight), ..self }
    }

    pub fn underline(self) -> (s: Span)
        ensures
            s.text == self.text,
            s.style == (Style { underline: true, ..self.style }),
    {
        Span { style: self.style.underline(), ..self }
    }

    pub fn strike_through(self) -> (s: Span)
        ensures
            s.text == self.text,
            s.style == (Style { strike_through: true, ..self.style }),
    {
        Span { style: self.style.strike_through(), ..self }
    }

    pub fn italic(self) -> (s: Span)
        ensures
            s.text == self.text,
            s.style == (Style { italic: true, ..self.style }),
    {
        Span { style: self.style.italic(), ..self }
    }

    /// Returns the span to its default: empty text, plain style.
    pub fn reset(&mut self)
        ensures
            final(self).text@.len() == 0,
            final(self).style.is_plain(),
    {
        *self = Span::default();
    }

    /// The escape sequence that draws this span on a terminal: the style's
    /// SGR parameters, the text unchanged, then a full reset.
    pub fn render(&self) -> (r: String)
        ensures
            r@ == render_spec(self.style, self.text@),
    {
        proof {
            reveal_strlit("\x1b[");
            reveal_strlit("m");
            reveal_strlit("\x1b[0m");
        }
        let codes = sgr_string(&self.style);
        let mut out = String::from_str("\x1b[");
        out.append(codes.as_str());
        out.append("m");
        out.append(self.text.as_str());
        out.append("\x1b[0m");
        assert(out@ =~= render_spec(self.style, self.text@));
        out
    }
}

impl Default for Span {
    fn default() -> (s: Span)
        ensures
            s.text@.len() == 0,
            s.style.is_plain(),
    {
        Span { text: String::new(), style: Style::plain() }
    }
}

/// A style with no attribute set draws its text between `ESC [ m` and the
/// reset.
pub proof fn lemma_plain_render(s: Style, text: Seq<char>)
    requires
        s.is_plain(),
    ensures
        render_spec(s, text) == seq!['\x1b', '[', 'm'] + text + seq!['\x1b', '[', '0', 'm'],
{
    assert(sgr_codes(s) =~= Seq::empty());
    assert(render_spec(s, text) =~= seq!['\x1b', '[', 'm'] + text + seq!['\x1b', '[', '0', 'm']);
}

/// Pure red on pure blue, and nothing else, draws as
/// `ESC [ 38;2;255;0;0;48;2;0;0;255 m <text> ESC [ 0 m`.
pub proof fn lemma_red_on_blue_render(s: Style, text: Seq<char>)
    requires
        s.fg matches Some(c) && c@ == seq![255u8, 0u8, 0u8],
        s.bg matches Some(c) && c@ == seq![0u8, 0u8, 255u8],
        s.weight == Weight::Normal,
        !s.underline,
        !s.strike_through,
        !s.italic,
    ensures
        render_spec(s, text) == seq!['\x1b', '['] + seq![
            '3', '8', ';', '2', ';', '2', '5', '5', ';', '0', ';', '0', ';',
            '4', '8', ';', '2', ';', '0', ';', '0', ';', '2', '5', '5',
        ] + seq!['m'] + text + seq!['\x1b', '[', '0', 'm'],
{
    let f = s.fg->Some_0;
    let b = s.bg->Some_0;
    assert(f[0] == f@[0] && f[1] == f@[1] && f[2] == f@[2]);
    assert(b[0] == b@[0] && b[1] == b@[1] && b[2] == b@[2]);
    assert(decimal(0) =~= seq!['0']);
    assert(decimal(255) =~= seq!['2', '5', '5']) by {
        reveal_with_fuel(decimal, 3);
    }
    let codes = sgr_codes(s);
    assert(codes =~= seq![color_code(seq!['3', '8'], f), color_code(seq!['4', '8'], b)]);
    assert(codes.drop_last() =~= seq![color_code(seq!['3', '8'], f)]);
    assert(join_codes(codes.drop_last()) == color_code(seq!['3', '8'], f));
    assert(color_code(seq!['3', '8'], f) =~= seq![
        '3', '8', ';', '2', ';', '2', '5', '5', ';', '0', ';', '0',
    ]);
    assert(color_code(seq!['4', '8'], b) =~= seq![
        '4', '8', ';', '2', ';', '0', ';', '0', ';', '2', '5', '5',
    ]);
    assert(join_codes(codes) =~= seq![
        '3', '8', ';', '2', ';', '2', '5', '5', ';', '0', ';', '0', ';',
        '4', '8', ';', '2', ';', '0', ';', '0', ';', '2', '5', '5',
    ]);
}

/// Bold and underline come out as `1;4` whichever was set first.
pub proof fn lemma_bold_underline_order(s: Style, text: Seq<char>)
    ensures
        render_spec(Style { underline: true, ..Style { weight: Weight::Bold, ..s } }, text)
            == render_spec(Style { weight: Weight::Bold, ..Style { underline: true, ..s } }, text),
        s.is_plain() ==> join_codes(
            sgr_codes(Style { underline: true, ..Style { weight: Weight::Bold, ..s } }),
        ) == seq!['1', ';', '4'],
{
    let t = Style { underline: true, ..Style { weight: Weight::Bold, ..s } };
    if s.is_plain() {
        assert(sgr_codes(t) =~= seq![seq!['1'], seq!['4']]);
        assert(sgr_codes(t).drop_last() =~= seq![seq!['1']]);
        assert(join_codes(sgr_codes(t).drop_last()) == seq!['1']);
        assert(join_codes(sgr_codes(t)) =~= seq!['1', ';', '4']);
    }
}

/// Any two styles in the reset state draw a text identically.
pub proof fn lemma_reset_like_fresh(a: Style, b: Style, text: Seq<char>)
    requires
        a.is_plain(),
        b.is_plain(),
    ensures
        a == b,
        render_spec(a, text) == render_spec(b, text),
{
}

/// Clearing the foreground twice is clearing it once, and clearing an
/// unset foreground changes nothing.
pub proof fn lemma_reset_fg_idempotent(s: Style)
    ensures
        (Style { fg: None, ..Style { fg: None, ..s } }) == (Style { fg: None, ..s }),
        (Style { fg: None, ..s }).fg is None,
        s.fg is None ==> (Style { fg: None, ..s }) == s,
{
}

} // verus!
