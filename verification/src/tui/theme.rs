//! The themes and the colour mode of the terminal.
//!
//! A theme is data: its slug (what the preferences file stores), its name
//! (what the theme box shows) and whether it paints the background. The
//! palettes themselves, the colour of each role, belong to the drawing. The
//! last theme of the catalogue is the only one without a background: it is
//! the one a 16-colour terminal can show.

use vstd::prelude::*;

use crate::dominio::texto::iguais;

verus! {

/// The four themes, in the order the theme box shows them.
#[derive(Debug, Clone, Copy, PartialEq, Eq, Structural)]
pub enum Theme {
    TokyoNight,
    TokyoNightStorm,
    TokyoNightMoon,
    Classico,
}

/// Slug of the theme without a background, the one for 16 colours.
pub const SLUG_CLASSICO: &'static str = "classico";

/// Slug of the default theme.
pub const SLUG_POR_OMISSAO: &'static str = "tokyo-night";

/// The catalogue, in the order of the theme box.
pub open spec fn catalogo_spec() -> Seq<Theme> {
    seq![Theme::TokyoNight, Theme::TokyoNightStorm, Theme::TokyoNightMoon, Theme::Classico]
}

pub open spec fn slug_spec(t: Theme) -> Seq<char> {
    match t {
        Theme::TokyoNight => "tokyo-night"@,
        Theme::TokyoNightStorm => "tokyo-night-storm"@,
        Theme::TokyoNightMoon => "tokyo-night-moon"@,
        Theme::Classico => "classico"@,
    }
}

pub open spec fn nome_spec(t: Theme) -> Seq<char> {
    match t {
        Theme::TokyoNight => "Tokyo Night"@,
        Theme::TokyoNightStorm => "Tokyo Night Storm"@,
        Theme::TokyoNightMoon => "Tokyo Night Moon"@,
        Theme::Classico => "Clássico (ANSI)"@,
    }
}

/// The background colour of a theme (`0xRRGGBB`), if it paints one.
pub open spec fn fundo_spec(t: Theme) -> Option<u32> {
    match t {
        Theme::TokyoNight => Some(0x1a1b26u32),
        Theme::TokyoNightStorm => Some(0x24283bu32),
        Theme::TokyoNightMoon => Some(0x222436u32),
        Theme::Classico => None,
    }
}

/// The theme of a slug: the first of the catalogue whose slug it is.
pub open spec fn por_slug_spec(s: Seq<char>) -> Option<Theme> {
    if s == "tokyo-night"@ {
        Some(Theme::TokyoNight)
    } else if s == "tokyo-night-storm"@ {
        Some(Theme::TokyoNightStorm)
    } else if s == "tokyo-night-moon"@ {
        Some(Theme::TokyoNightMoon)
    } else if s == "classico"@ {
        Some(Theme::Classico)
    } else {
        None
    }
}

/// The catalogue of themes.
pub fn catalogo() -> (r: [Theme; 4])
    ensures
        r@ == catalogo_spec(),
{
    let r = [Theme::TokyoNight, Theme::TokyoNightStorm, Theme::TokyoNightMoon, Theme::Classico];
    assert(r@ =~= catalogo_spec());
    r
}

impl Theme {
    /// What the preferences file stores.
    pub fn slug(self) -> (r: &'static str)
        ensures
            r@ == slug_spec(self),
    {
        match self {
            Theme::TokyoNight => "tokyo-night",
            Theme::TokyoNightStorm => "tokyo-night-storm",
            Theme::TokyoNightMoon => "tokyo-night-moon",
            Theme::Classico => "classico",
        }
    }

    /// What the theme box shows.
    pub fn nome(self) -> (r: &'static str)
        ensures
            r@ == nome_spec(self),
    {
        match self {
            Theme::TokyoNight => "Tokyo Night",
            Theme::TokyoNightStorm => "Tokyo Night Storm",
            Theme::TokyoNightMoon => "Tokyo Night Moon",
            Theme::Classico => "Clássico (ANSI)",
        }
    }

    /// The background colour, `0xRRGGBB`, when the theme paints one.
    pub fn bg(self) -> (r: Option<u32>)
        ensures
            r == fundo_spec(self),
    {
        match self {
            Theme::TokyoNight => Some(0x1a1b26u32),
            Theme::TokyoNightStorm => Some(0x24283bu32),
            Theme::TokyoNightMoon => Some(0x222436u32),
            Theme::Classico => None,
        }
    }

    /// The theme whose slug is `slug`, if the catalogue has one.
    pub fn por_slug(slug: &str) -> (r: Option<Theme>)
        ensures
            r == por_slug_spec(slug@),
    {
        if iguais(slug, "tokyo-night") {
            Some(Theme::TokyoNight)
        } else if iguais(slug, "tokyo-night-storm") {
            Some(Theme::TokyoNightStorm)
        } else if iguais(slug, "tokyo-night-moon") {
            Some(Theme::TokyoNightMoon)
        } else if iguais(slug, "classico") {
            Some(Theme::Classico)
        } else {
            None
        }
    }

    /// The position of the theme in the catalogue.
    pub fn posicao(self) -> (r: usize)
        ensures
            r < 4,
            catalogo_spec()[r as int] == self,
    {
        match self {
            Theme::TokyoNight => 0,
            Theme::TokyoNightStorm => 1,
            Theme::TokyoNightMoon => 2,
            Theme::Classico => 3,
        }
    }
}

impl Default for Theme {
    /// Tokyo Night, the first of the catalogue.
    fn default() -> (r: Theme)
        ensures
            r == Theme::TokyoNight,
    {
        Theme::TokyoNight
    }
}

// ----------------------------------------------------------- the palettes

/// A colour: 24 bits (`0xRRGGBB`), or an index of the terminal's palette.
#[derive(Debug, Clone, Copy, PartialEq, Eq, Structural)]
pub enum Cor {
    Rgb(u32),
    Indexada(u8),
}

/// A role of the screen: its foreground colour (none leaves the terminal's
/// own) and its modifiers.
#[derive(Debug, Clone, Copy, PartialEq, Eq, Structural)]
pub struct Papel {
    pub cor: Option<Cor>,
    pub negrito: bool,
    pub italico: bool,
    pub riscado: bool,
    pub invertido: bool,
}

/// The roles of a theme: normal text, the accent (name of the program,
/// labels), high priority and warnings, the box of a done task, the rules,
/// errors, the selected line, the hint of an empty line of text, and the
/// title of a done task.
#[derive(Debug, Clone, Copy, PartialEq, Eq, Structural)]
pub struct Paleta {
    pub fg: Papel,
    pub accent: Papel,
    pub high: Papel,
    pub done: Papel,
    pub rule: Papel,
    pub err: Papel,
    pub selec: Papel,
    pub placeholder: Papel,
    pub riscado: Papel,
}

/// The rule of the three Tokyo Night themes: the key `dark5`.
pub const REGUA_TOKYO: u32 = 0x737aa2;

pub open spec fn papel(cor: Option<Cor>, negrito: bool, italico: bool, riscado: bool, invertido: bool) -> Papel {
    Papel { cor, negrito, italico, riscado, invertido }
}

/// A Tokyo Night palette from the values that tell one from another: the
/// error is the high colour in bold, the hint and the done title keep the
/// colour of the text, and the selected line is reversed with no colour.
pub open spec fn tokyo_night_spec(fg: u32, accent: u32, high: u32, done: u32) -> Paleta {
    Paleta {
        fg: papel(Some(Cor::Rgb(fg)), false, false, false, false),
        accent: papel(Some(Cor::Rgb(accent)), true, false, false, false),
        high: papel(Some(Cor::Rgb(high)), false, false, false, false),
        done: papel(Some(Cor::Rgb(done)), false, false, false, false),
        rule: papel(Some(Cor::Rgb(REGUA_TOKYO)), false, false, false, false),
        err: papel(Some(Cor::Rgb(high)), true, false, false, false),
        selec: papel(None, false, false, false, true),
        placeholder: papel(Some(Cor::Rgb(fg)), false, true, false, false),
        riscado: papel(Some(Cor::Rgb(fg)), false, false, true, false),
    }
}

/// The classic palette: indices of the terminal's own palette, and no colour
/// for the text, so the terminal decides.
pub open spec fn classico_spec() -> Paleta {
    Paleta {
        fg: papel(None, false, false, false, false),
        accent: papel(Some(Cor::Indexada(6)), true, false, false, false),
        high: papel(Some(Cor::Indexada(1)), false, false, false, false),
        done: papel(Some(Cor::Indexada(2)), false, false, false, false),
        rule: papel(Some(Cor::Indexada(8)), false, false, false, false),
        err: papel(Some(Cor::Indexada(1)), true, false, false, false),
        selec: papel(None, false, false, false, true),
        placeholder: papel(None, false, true, false, false),
        riscado: papel(None, false, false, true, false),
    }
}

pub open spec fn paleta_spec(t: Theme) -> Paleta {
    match t {
        Theme::TokyoNight => tokyo_night_spec(0xc0caf5, 0x7dcfff, 0xf7768e, 0x9ece6a),
        Theme::TokyoNightStorm => tokyo_night_spec(0xc0caf5, 0x7dcfff, 0xf7768e, 0x9ece6a),
        Theme::TokyoNightMoon => tokyo_night_spec(0xc8d3f5, 0x86e1fc, 0xff757f, 0xc3e88d),
        Theme::Classico => classico_spec(),
    }
}

fn com(cor: Option<Cor>, negrito: bool, italico: bool, riscado: bool, invertido: bool) -> (r: Papel)
    ensures
        r == papel(cor, negrito, italico, riscado, invertido),
{
    Papel { cor, negrito, italico, riscado, invertido }
}

/// A Tokyo Night palette.
pub fn tokyo_night(fg: u32, accent: u32, high: u32, done: u32) -> (r: Paleta)
    ensures
        r == tokyo_night_spec(fg, accent, high, done),
{
    Paleta {
        fg: com(Some(Cor::Rgb(fg)), false, false, false, false),
        accent: com(Some(Cor::Rgb(accent)), true, false, false, false),
        high: com(Some(Cor::Rgb(high)), false, false, false, false),
        done: com(Some(Cor::Rgb(done)), false, false, false, false),
        rule: com(Some(Cor::Rgb(REGUA_TOKYO)), false, false, false, false),
        err: com(Some(Cor::Rgb(high)), true, false, false, false),
        selec: com(None, false, false, false, true),
        placeholder: com(Some(Cor::Rgb(fg)), false, true, false, false),
        riscado: com(Some(Cor::Rgb(fg)), false, false, true, false),
    }
}

/// The classic palette.
pub fn classico() -> (r: Paleta)
    ensures
        r == classico_spec(),
{
    Paleta {
        fg: com(None, false, false, false, false),
        accent: com(Some(Cor::Indexada(6)), true, false, false, false),
        high: com(Some(Cor::Indexada(1)), false, false, false, false),
        done: com(Some(Cor::Indexada(2)), false, false, false, false),
        rule: com(Some(Cor::Indexada(8)), false, false, false, false),
        err: com(Some(Cor::Indexada(1)), true, false, false, false),
        selec: com(None, false, false, false, true),
        placeholder: com(None, false, true, false, false),
        riscado: com(None, false, false, true, false),
    }
}

impl Theme {
    /// The roles of the theme.
    pub fn paleta(self) -> (r: Paleta)
        ensures
            r == paleta_spec(self),
    {
        match self {
            Theme::TokyoNight => tokyo_night(0xc0caf5, 0x7dcfff, 0xf7768e, 0x9ece6a),
            Theme::TokyoNightStorm => tokyo_night(0xc0caf5, 0x7dcfff, 0xf7768e, 0x9ece6a),
            Theme::TokyoNightMoon => tokyo_night(0xc8d3f5, 0x86e1fc, 0xff757f, 0xc3e88d),
            Theme::Classico => classico(),
        }
    }
}

/// In every theme one red serves two uses (the error is the high colour in
/// bold), the hint and the done title keep the contrast of the text, and the
/// selected line is only reversed.
pub proof fn lei_papeis(t: Theme)
    ensures
        paleta_spec(t).err.cor == paleta_spec(t).high.cor,
        paleta_spec(t).err.negrito,
        paleta_spec(t).placeholder.cor == paleta_spec(t).fg.cor,
        paleta_spec(t).placeholder.italico,
        paleta_spec(t).riscado.cor == paleta_spec(t).fg.cor,
        paleta_spec(t).riscado.riscado,
        paleta_spec(t).selec == papel(None, false, false, false, true),
{
}

/// The colour mode of the session: `auto` asks the terminal, the other two
/// are forced.
#[derive(Debug, Clone, Copy, PartialEq, Eq, Structural)]
pub enum ModoCor {
    Auto,
    Rgb,
    Ansi,
}

/// How many colours the terminal announces (`crossterm`'s
/// `available_color_count`): it reads `COLORTERM`, then `TERM`, of the
/// environment, and gives `u16::MAX` for true colour, 256 for a 256-colour
/// terminal and 8 otherwise. Nothing else is stated of it: it depends on the
/// environment.
#[verifier::external_body]
pub fn cores_disponiveis() -> (r: u16)
    ensures
        r == u16::MAX || r == 256 || r == 8,
{
    crossterm::style::available_color_count()
}

/// The colour mode in force when the terminal announces `cores` colours:
/// `auto` becomes `rgb` with true colour and `ansi` without; a forced mode
/// stays.
pub open spec fn detectado(modo: ModoCor, cores: u16) -> ModoCor {
    match modo {
        ModoCor::Auto => if cores == u16::MAX {
            ModoCor::Rgb
        } else {
            ModoCor::Ansi
        },
        m => m,
    }
}

/// What is drawn for `tema` in mode `modo` (already detected): in `ansi`, a
/// theme with a background gives the first of the catalogue without one.
pub open spec fn desenhado(modo: ModoCor, tema: Theme) -> Theme {
    if modo == ModoCor::Ansi && fundo_spec(tema) is Some {
        Theme::Classico
    } else {
        tema
    }
}

impl ModoCor {
    /// The mode in force given the colours the terminal announces.
    pub fn detectar_com(self, cores: u16) -> (r: ModoCor)
        ensures
            r == detectado(self, cores),
    {
        match self {
            ModoCor::Auto => if cores == u16::MAX {
                ModoCor::Rgb
            } else {
                ModoCor::Ansi
            },
            m => m,
        }
    }

    /// The mode in force: `auto` asks the terminal.
    pub fn detectar(self) -> (r: ModoCor)
        ensures
            self != ModoCor::Auto ==> r == self,
            self == ModoCor::Auto ==> r != ModoCor::Auto,
    {
        self.detectar_com(cores_disponiveis())
    }

    /// The theme drawn for `tema` when this mode is already detected.
    pub fn resolver_com(self, tema: Theme) -> (r: Theme)
        ensures
            r == desenhado(self, tema),
    {
        if self == ModoCor::Ansi && tema.bg().is_some() {
            let cat = catalogo();
            let mut i: usize = 0;
            while i < 4
                invariant
                    0 <= i <= 4,
                    cat@ == catalogo_spec(),
                    self == ModoCor::Ansi,
                    fundo_spec(tema) is Some,
                    forall|j: int| 0 <= j < i ==> fundo_spec(#[trigger] cat@[j]) is Some,
                decreases 4 - i,
            {
                if cat[i].bg().is_none() {
                    return cat[i];
                }
                i = i + 1;
            }
            tema
        } else {
            tema
        }
    }

    /// The theme drawn for `tema` in this mode: a theme with a background
    /// gives the one without in `ansi`, and stays otherwise.
    pub fn resolver(self, tema: Theme) -> (r: Theme)
        ensures
            self == ModoCor::Rgb ==> r == tema,
            self == ModoCor::Ansi ==> r == desenhado(ModoCor::Ansi, tema),
            r == tema || r == Theme::Classico,
    {
        self.detectar().resolver_com(tema)
    }
}

/// Each theme is found again by its slug.
pub proof fn lei_slug_ida_e_volta(t: Theme)
    ensures
        por_slug_spec(slug_spec(t)) == Some(t),
{
    reveal_strlit("tokyo-night");
    reveal_strlit("tokyo-night-storm");
    reveal_strlit("tokyo-night-moon");
    reveal_strlit("classico");
    assert("tokyo-night"@ != "tokyo-night-storm"@) by {
        assert("tokyo-night"@.len() != "tokyo-night-storm"@.len());
    }
    assert("tokyo-night"@ != "tokyo-night-moon"@) by {
        assert("tokyo-night"@.len() != "tokyo-night-moon"@.len());
    }
    assert("tokyo-night"@ != "classico"@) by {
        assert("tokyo-night"@[0] != "classico"@[0]);
    }
    assert("tokyo-night-storm"@ != "tokyo-night-moon"@) by {
        assert("tokyo-night-storm"@[12] != "tokyo-night-moon"@[12]);
    }
    assert("tokyo-night-storm"@ != "classico"@) by {
        assert("tokyo-night-storm"@[0] != "classico"@[0]);
    }
    assert("tokyo-night-moon"@ != "classico"@) by {
        assert("tokyo-night-moon"@[0] != "classico"@[0]);
    }
}

/// In `ansi` mode no theme with a background is drawn, and a theme without
/// one is drawn as it is.
pub proof fn lei_ansi_sem_fundo(tema: Theme)
    ensures
        fundo_spec(desenhado(ModoCor::Ansi, tema)) is None,
        fundo_spec(tema) is None ==> desenhado(ModoCor::Ansi, tema) == tema,
        desenhado(ModoCor::Rgb, tema) == tema,
{
}

} // verus!
