use vstd::prelude::*;

verus! {

/// How heavy the glyphs are drawn; `Normal` emits no code.
#[derive(Debug, Clone, Copy, PartialEq, Eq, Structural)]
pub enum Weight {
    Normal,
    Bold,
    Faint,
}

impl Default for Weight {
    fn default() -> (w: Weight)
        ensures
            w == Weight::Normal,
    {
        Weight::Normal
    }
}

/// A 24-bit colour: red, green and blue components.
pub type RGB = [u8; 3];

/// The visual attributes applied to a span of text.
#[derive(Debug, Clone, Copy)]
pub struct Style {
    pub weight: Weight,
    pub fg: Option<RGB>,
    pub bg: Option<RGB>,
    pub underline: bool,
    pub strike_through: bool,
    pub italic: bool,
}

impl Style {
    /// The style with every attribute at its default: no colours, normal
    /// weight, no decorations.
    pub open spec fn is_plain(self) -> bool {
        &&& self.fg.is_none()
        &&& self.bg.is_none()
        &&& self.weight == Weight::Normal
        &&& !self.underline
        &&& !self.strike_through
        &&& !self.italic
    }

    /// The style with every attribute at its default.
    pub fn plain() -> (s: Style)
        ensures
            s.is_plain(),
    {
        Style {
            weight: Weight::Normal,
            fg: None,
            bg: None,
            underline: false,
            strike_through: false,
            italic: false,
        }
    }

    /// This style with the foreground set to `(r, g, b)`.
    pub fn fg(self, r: u8, g: u8, b: u8) -> (s: Style)
        ensures
            s == (Style { fg: Some([r, g, b]), ..self }),
    {
        Style { fg: Some([r, g, b]), ..self }
    }

    /// Sets the foreground to `(r, g, b)`.
    pub fn set_fg(&mut self, r: u8, g: u8, b: u8)
        ensures
            *final(self) == (Style { fg: Some([r, g, b]), ..*old(self) }),
    {
        self.fg = Some([r, g, b]);
    }

    /// Clears the foreground: the terminal's default is used.
    pub fn reset_fg(&mut self)
        ensures
            *final(self) == (Style { fg: None, ..*old(self) }),
    {
        self.fg = None;
    }

    /// The foreground, if one is set.
    pub fn get_fg(&self) -> (c: &Option<RGB>)
        ensures
            *c == self.fg,
    {
        &self.fg
    }

    /// This style with the background set to `(r, g, b)`.
    pub fn bg(self, r: u8, g: u8, b: u8) -> (s: Style)
        ensures
            s == (Style { bg: Some([r, g, b]), ..self }),
    {
        Style { bg: Some([r, g, b]), ..self }
    }

    /// Sets the background to `(r, g, b)`.
    pub fn set_bg(&mut self, r: u8, g: u8, b: u8)
        ensures
            *final(self) == (Style { bg: Some([r, g, b]), ..*old(self) }),
    {
        self.bg = Some([r, g, b]);
    }

    /// Clears the background: the terminal's default is used.
    pub fn reset_bg(&mut self)
        ensures
            *final(self) == (Style { bg: None, ..*old(self) }),
    {
        self.bg = None;
    }

    /// The background, if one is set.
    pub fn get_bg(&self) -> (c: &Option<RGB>)
        ensures
            *c == self.bg,
    {
        &self.bg
    }

    /// This style with the given weight; the last weight set wins.
    pub fn weight(self, weight: Weight) -> (s: Style)
        ensures
            s == (Style { weight, ..self }),
    {
        Style { weight, ..self }
    }

    /// This style, underlined.
    pub fn underline(self) -> (s: Style)
        ensures
            s == (Style { underline: true, ..self }),
    {
        Style { underline: true, ..self }
    }

    /// This style, struck through.
    pub fn strike_through(self) -> (s: Style)
        ensures
            s == (Style { strike_through: true, ..self }),
    {
        Style { strike_through: true, ..self }
    }

    /// This style, in italics.
    pub fn italic(self) -> (s: Style)
        ensures
            s == (Style { italic: true, ..self }),
    {
        Style { italic: true, ..self }
    }

    /// Returns every attribute to its default.
    pub fn reset(&mut self)
        ensures
            final(self).is_plain(),
    {
        *self = Style::plain();
    }
}

impl Default for Style {
    fn default() -> (s: Style)
        ensures
            s.is_plain(),
    {
        Style::plain()
    }
}

} // verus!
