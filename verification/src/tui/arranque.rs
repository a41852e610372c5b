//! The start-up decision: which theme, which colour mode and which
//! preferences file the session uses.
//!
//! Each choice is a chain of precedence: `--theme`, then
//! `TODO_RATATUI_THEME`, then the preferences file, then the default; and
//! `--color`, then `TODO_RATATUI_COLOR`, then `auto`. An invalid value is
//! never fatal: it leaves a warning and the chain goes on to the next value.
//! Nothing here writes: the command line and the environment are overrides
//! for the session only.
//!
//! The caller reads the command line and the environment, asks the system
//! for its configuration directory and reads the preferences file; the
//! decisions are here.

use vstd::prelude::*;

use crate::dominio::atomic::caminho_junto;
use crate::dominio::config::{
    resolve_path, texto_do_erro_de_config, Config, ConfigError, LeituraConfig, CONFIG_FILE_NAME,
};
use crate::dominio::import_export::vistas;
use crate::dominio::texto::{caracter_de, caracteres, empurrar, iguais, texto_de};
use crate::tui::theme::{
    catalogo, catalogo_spec, desenhado, detectado, por_slug_spec, slug_spec, ModoCor, Theme,
};

verus! {

/// Environment variable that replaces `--theme`.
pub const ENV_THEME: &'static str = "TODO_RATATUI_THEME";

/// Environment variable that replaces `--color`.
pub const ENV_COLOR: &'static str = "TODO_RATATUI_COLOR";

/// The three options of the command line that are preferences.
#[derive(Debug, Clone, Default, PartialEq, Eq)]
pub struct Opcoes {
    pub theme: Option<String>,
    pub color: Option<String>,
    pub config: Option<String>,
}

/// The environment variables the decision reads, already read; an empty
/// variable counts as unset.
#[derive(Debug, Clone, Default, PartialEq, Eq)]
pub struct Ambiente {
    pub theme: Option<String>,
    pub color: Option<String>,
    pub config: Option<String>,
}

/// The start-up decided.
#[derive(Debug)]
pub struct Resolucao {
    /// The theme the chain chose, before the colour mode.
    pub pedido: Theme,
    /// The theme the session draws: `pedido` through the colour mode.
    pub tema: Theme,
    /// The colour mode asked for (not the one detected).
    pub modo: ModoCor,
    /// The preferences file of the session, when there is a place for one.
    pub config_path: Option<String>,
    /// Warnings for the standard error, in the order they were found.
    pub avisos: Vec<String>,
}

// ------------------------------------------------------- printable text

/// A control character: the general category `Cc`, what `char::is_control`
/// tests.
pub open spec fn e_controlo(c: char) -> bool {
    (c as u32) < 0x20 || (0x7f <= (c as u32) && (c as u32) < 0xa0)
}

pub open spec fn digito_hex(d: nat) -> char {
    if d < 10 {
        (('0' as nat) + d) as char
    } else {
        (('a' as nat) + d - 10) as char
    }
}

/// The lower-case hexadecimal digits of `n`, as `{:x}` writes them.
pub open spec fn hexadecimal(n: nat) -> Seq<char>
    decreases n,
{
    if n < 16 {
        seq![digito_hex(n)]
    } else {
        hexadecimal(n / 16).push(digito_hex(n % 16))
    }
}

/// How one character is printed: a control character as the visible
/// sequence `\u{1b}`, anything else as itself.
pub open spec fn imprimivel_do_caracter(c: char) -> Seq<char> {
    if e_controlo(c) {
        "\\u{"@ + hexadecimal((c as u32) as nat) + "}"@
    } else {
        seq![c]
    }
}

/// The printable form of a text, character by character.
pub open spec fn imprimivel_spec(s: Seq<char>) -> Seq<char>
    decreases s.len(),
{
    if s.len() == 0 {
        seq![]
    } else {
        imprimivel_spec(s.drop_last()) + imprimivel_do_caracter(s.last())
    }
}

fn escrever_hex(n: u32, out: &mut Vec<char>)
    ensures
        final(out)@ == old(out)@ + hexadecimal(n as nat),
    decreases n,
{
    if n >= 16 {
        escrever_hex(n / 16, out);
    }
    let d = n % 16;
    let c = if d < 10 {
        caracter_de(48 + d).unwrap()
    } else {
        caracter_de(87 + d).unwrap()
    };
    assert(c == digito_hex((n % 16) as nat));
    out.push(c);
    assert(final(out)@ =~= old(out)@ + hexadecimal(n as nat));
}

/// The printable form of `texto`: each control character (the category
/// `Cc`, line feed and tab included) comes out as the visible sequence
/// `\u{1b}`, the way Rust's `Debug` writes it, and everything else stays as
/// it is, accents and symbols included. This is the only text that reaches
/// the terminal outside the drawing, and it may carry values nobody checked.
pub fn imprimivel(texto: &str) -> (r: String)
    ensures
        r@ == imprimivel_spec(texto@),
{
    let v = caracteres(texto);
    let mut out: Vec<char> = Vec::new();
    let mut i: usize = 0;
    while i < v.len()
        invariant
            0 <= i <= v@.len(),
            v@ == texto@,
            out@ == imprimivel_spec(v@.subrange(0, i as int)),
        decreases v@.len() - i,
    {
        assert(v@.subrange(0, i + 1).drop_last() =~= v@.subrange(0, i as int));
        let c = v[i];
        let n = c as u32;
        let ghost antes = out@;
        if n < 0x20 || (0x7f <= n && n < 0xa0) {
            out.push('\\');
            out.push('u');
            out.push('{');
            let ghost meio = out@;
            escrever_hex(n, &mut out);
            out.push('}');
            proof {
                reveal_strlit("\\u{");
                reveal_strlit("}");
                assert(meio =~= antes + "\\u{"@);
                assert(out@ =~= antes + imprimivel_do_caracter(c));
            }
        } else {
            out.push(c);
            assert(out@ =~= antes + imprimivel_do_caracter(c));
        }
        i = i + 1;
        assert(out@ =~= imprimivel_spec(v@.subrange(0, i as int)));
    }
    assert(v@.subrange(0, v@.len() as int) =~= v@);
    texto_de(&out)
}

/// A text without control characters is printed as it is.
pub proof fn lei_imprimivel_identidade(s: Seq<char>)
    requires
        forall|i: int| 0 <= i < s.len() ==> !e_controlo(#[trigger] s[i]),
    ensures
        imprimivel_spec(s) == s,
    decreases s.len(),
{
    if s.len() > 0 {
        let d = s.drop_last();
        assert forall|i: int| 0 <= i < d.len() implies !e_controlo(#[trigger] d[i]) by {
            assert(d[i] == s[i]);
        }
        lei_imprimivel_identidade(d);
        assert(!e_controlo(s[s.len() - 1]));
        assert(d + seq![s.last()] =~= s);
    }
}

/// What is printed contains no control character.
pub proof fn lei_imprimivel_sem_controlo(s: Seq<char>)
    ensures
        forall|i: int| 0 <= i < imprimivel_spec(s).len() ==> !e_controlo(#[trigger] imprimivel_spec(s)[i]),
    decreases s.len(),
{
    if s.len() > 0 {
        lei_imprimivel_sem_controlo(s.drop_last());
        let a = imprimivel_spec(s.drop_last());
        let b = imprimivel_do_caracter(s.last());
        reveal_strlit("\\u{");
        reveal_strlit("}");
        let c = s.last();
        let h = hexadecimal((c as u32) as nat);
        lemma_hex_sem_controlo((c as u32) as nat);
        assert forall|i: int| 0 <= i < (a + b).len() implies !e_controlo(#[trigger] (a + b)[i]) by {
            if i >= a.len() {
                let j = i - a.len();
                assert((a + b)[i] == b[j]);
                if e_controlo(c) {
                    let p = "\\u{"@;
                    assert(p.len() == 3);
                    assert(b == p + h + "}"@);
                    if j < 3 {
                        assert(b[j] == p[j]);
                    } else if j < 3 + h.len() {
                        assert(b[j] == h[j - 3]);
                    } else {
                        assert(b[j] == '}');
                    }
                }
            }
        }
    }
}

proof fn lemma_digito_hex(d: nat)
    requires
        d < 16,
    ensures
        !e_controlo(digito_hex(d)),
{
    if d < 10 {
        assert((('0' as nat) + d) as char as u32 == 48 + d);
    } else {
        assert((('a' as nat) + d - 10) as char as u32 == 87 + d);
    }
}

proof fn lemma_hex_sem_controlo(n: nat)
    ensures
        forall|i: int| 0 <= i < hexadecimal(n).len() ==> !e_controlo(#[trigger] hexadecimal(n)[i]),
    decreases n,
{
    lemma_digito_hex(n % 16);
    if n >= 16 {
        lemma_hex_sem_controlo(n / 16);
        let h = hexadecimal(n / 16);
        assert forall|i: int| 0 <= i < hexadecimal(n).len() implies !e_controlo(#[trigger] hexadecimal(n)[i]) by {
            if i < h.len() {
                assert(hexadecimal(n)[i] == h[i]);
            }
        }
    } else {
        lemma_digito_hex(n);
    }
}

// ------------------------------------------------------------- the chains

/// A link of a chain of precedence: where the value comes from and the
/// value, if that source gave one.
pub struct Fonte {
    pub nome: &'static str,
    pub valor: Option<String>,
}

/// The slugs of the catalogue, in the order of the theme box, separated by
/// commas.
pub open spec fn slugs_spec() -> Seq<char> {
    slugs_ate(4)
}

/// The slugs of the first `i` themes of the catalogue, separated by commas.
pub open spec fn slugs_ate(i: int) -> Seq<char>
    decreases i,
{
    if i <= 0 {
        seq![]
    } else if i == 1 {
        slug_spec(catalogo_spec()[0])
    } else {
        slugs_ate(i - 1) + ", "@ + slug_spec(catalogo_spec()[i - 1])
    }
}

/// The slugs of the catalogue, for the warning of an unknown theme.
pub fn slugs() -> (r: String)
    ensures
        r@ == slugs_spec(),
{
    let cat = catalogo();
    let mut s = String::new();
    let mut i: usize = 0;
    while i < 4
        invariant
            0 <= i <= 4,
            cat@ == catalogo_spec(),
            s@ == slugs_ate(i as int),
        decreases 4 - i,
    {
        if i > 0 {
            s.append(", ");
        }
        s.append(cat[i].slug());
        i = i + 1;
    }
    s
}

/// The warning of an unknown theme.
pub open spec fn aviso_de_tema(fonte: Seq<char>, slug: Seq<char>) -> Seq<char> {
    fonte + ": tema «"@ + slug + "» desconhecido — os temas são: "@ + slugs_spec()
}

/// The theme of the first valid slug of the chain, and the warnings of the
/// invalid ones met before it.
pub open spec fn tema_da_cadeia(f: Seq<Fonte>) -> (Option<Theme>, Seq<Seq<char>>)
    decreases f.len(),
{
    if f.len() == 0 {
        (None, seq![])
    } else {
        match f[0].valor {
            None => tema_da_cadeia(f.drop_first()),
            Some(slug) => match por_slug_spec(slug@) {
                Some(t) => (Some(t), seq![]),
                None => {
                    let (r, a) = tema_da_cadeia(f.drop_first());
                    (r, seq![aviso_de_tema(f[0].nome@, slug@)] + a)
                },
            },
        }
    }
}

/// Some source of the chain gave a value.
pub open spec fn houve_candidato(f: Seq<Fonte>) -> bool {
    exists|i: int| 0 <= i < f.len() && (#[trigger] f[i]).valor is Some
}

/// The warning of a chain where no theme was valid.
pub open spec fn aviso_sem_tema() -> Seq<char> {
    "nenhum tema válido na cadeia — uso «"@ + slug_spec(Theme::TokyoNight) + "», o tema por omissão"@
}

/// The theme a chain gives (the default when no slug is valid) and the
/// warnings it leaves.
pub open spec fn escolha_do_tema(f: Seq<Fonte>) -> (Theme, Seq<Seq<char>>) {
    let (r, a) = tema_da_cadeia(f);
    match r {
        Some(t) => (t, a),
        None => (Theme::TokyoNight, if houve_candidato(f) {
            a.push(aviso_sem_tema())
        } else {
            a
        }),
    }
}

/// The first valid slug of the chain; the last resort is the default theme.
/// Each invalid value leaves a warning that lists the themes there are.
pub fn o_tema(fontes: &Vec<Fonte>, avisos: &mut Vec<String>) -> (r: Theme)
    ensures
        r == escolha_do_tema(fontes@).0,
        vistas(final(avisos)@) == vistas(old(avisos)@) + escolha_do_tema(fontes@).1,
{
    let ghost f = fontes@;
    let ghost a0 = vistas(avisos@);
    let mut houve = false;
    let mut i: usize = 0;
    assert(f.subrange(0, f.len() as int) =~= f);
    assert(a0 + tema_da_cadeia(f).1 =~= vistas(avisos@) + tema_da_cadeia(f).1);
    while i < fontes.len()
        invariant
            0 <= i <= f.len(),
            f == fontes@,
            a0 == vistas(old(avisos)@),
            ({
                let (r0, w0) = tema_da_cadeia(f);
                let (ri, wi) = tema_da_cadeia(f.subrange(i as int, f.len() as int));
                &&& r0 == ri
                &&& a0 + w0 == vistas(avisos@) + wi
            }),
            houve == exists|j: int| 0 <= j < i && (#[trigger] f[j]).valor is Some,
        decreases f.len() - i,
    {
        let ghost resto = f.subrange(i as int, f.len() as int);
        assert(resto.drop_first() =~= f.subrange(i + 1, f.len() as int));
        assert(resto[0] == f[i as int]);
        match &fontes[i].valor {
            None => {},
            Some(slug) => {
                houve = true;
                match Theme::por_slug(slug.as_str()) {
                    Some(t) => {
                        proof {
                            let (ri, wi) = tema_da_cadeia(resto);
                            assert(wi =~= Seq::<Seq<char>>::empty());
                            assert(ri == Some(t));
                            assert(vistas(avisos@) + wi =~= vistas(avisos@));
                            assert(tema_da_cadeia(f).0 == Some(t));
                            assert(vistas(avisos@) =~= a0 + tema_da_cadeia(f).1);
                        }
                        return t;
                    },
                    None => {
                        let mut aviso = fontes[i].nome.to_owned();
                        aviso.append(": tema «");
                        aviso.append(slug.as_str());
                        aviso.append("» desconhecido — os temas são: ");
                        aviso.append(slugs().as_str());
                        let ghost antes = avisos@;
                        avisos.push(aviso);
                        assert(vistas(avisos@) =~= vistas(antes).push(
                            aviso_de_tema(f[i as int].nome@, slug@),
                        ));
                        proof {
                            let (ri, wi) = tema_da_cadeia(resto);
                            let (rj, wj) = tema_da_cadeia(f.subrange(i + 1, f.len() as int));
                            assert(wi =~= seq![aviso_de_tema(f[i as int].nome@, slug@)] + wj);
                            assert(vistas(antes).push(aviso_de_tema(f[i as int].nome@, slug@)) + wj
                                =~= vistas(antes) + wi);
                        }
                    },
                }
            },
        }
        i = i + 1;
    }
    proof {
        assert(f.subrange(f.len() as int, f.len() as int) =~= Seq::<Fonte>::empty());
        let (r0, w0) = tema_da_cadeia(f);
        assert(vistas(avisos@) =~= a0 + w0);
    }
    if houve {
        let ghost antes = avisos@;
        let mut aviso = String::new();
        aviso.append("nenhum tema válido na cadeia — uso «");
        aviso.append(Theme::TokyoNight.slug());
        aviso.append("», o tema por omissão");
        avisos.push(aviso);
        assert(vistas(avisos@) =~= vistas(antes).push(aviso_sem_tema()));
    }
    Theme::TokyoNight
}

/// The name of a colour mode as it is written on the command line.
pub open spec fn nome_spec(modo: ModoCor) -> Seq<char> {
    match modo {
        ModoCor::Auto => "auto"@,
        ModoCor::Rgb => "rgb"@,
        ModoCor::Ansi => "ansi"@,
    }
}

/// The name of a colour mode, the same spelling as `--color`, so that the
/// warning can be copied there.
pub fn nome(modo: ModoCor) -> (r: &'static str)
    ensures
        r@ == nome_spec(modo),
{
    match modo {
        ModoCor::Auto => "auto",
        ModoCor::Rgb => "rgb",
        ModoCor::Ansi => "ansi",
    }
}

/// The mode a value of `--color` names.
pub open spec fn modo_do_valor(v: Seq<char>) -> Option<ModoCor> {
    if v == "auto"@ {
        Some(ModoCor::Auto)
    } else if v == "rgb"@ {
        Some(ModoCor::Rgb)
    } else if v == "ansi"@ {
        Some(ModoCor::Ansi)
    } else {
        None
    }
}

/// The warning of an unknown colour mode.
pub open spec fn aviso_de_modo(fonte: Seq<char>, valor: Seq<char>) -> Seq<char> {
    fonte + ": modo de cor «"@ + valor + "» desconhecido — os valores são: auto, rgb, ansi"@
}

/// The first valid mode of the chain and the source that decided it
/// (`None` when the chain fell to `auto`), with the warnings of the invalid
/// values met before it.
pub open spec fn modo_da_cadeia(f: Seq<Fonte>) -> (ModoCor, Option<Seq<char>>, Seq<Seq<char>>)
    decreases f.len(),
{
    if f.len() == 0 {
        (ModoCor::Auto, None, seq![])
    } else {
        match f[0].valor {
            None => modo_da_cadeia(f.drop_first()),
            Some(v) => match modo_do_valor(v@) {
                Some(m) => (m, Some(f[0].nome@), seq![]),
                None => {
                    let (m, o, a) = modo_da_cadeia(f.drop_first());
                    (m, o, seq![aviso_de_modo(f[0].nome@, v@)] + a)
                },
            },
        }
    }
}

fn modo_do_texto(v: &str) -> (r: Option<ModoCor>)
    ensures
        r == modo_do_valor(v@),
{
    if iguais(v, "auto") {
        Some(ModoCor::Auto)
    } else if iguais(v, "rgb") {
        Some(ModoCor::Rgb)
    } else if iguais(v, "ansi") {
        Some(ModoCor::Ansi)
    } else {
        None
    }
}

/// The first valid colour mode of the chain and the source that decided
/// it; without one, `auto` and no source.
pub fn o_modo(fontes: &Vec<Fonte>, avisos: &mut Vec<String>) -> (r: (ModoCor, Option<&'static str>))
    ensures
        r.0 == modo_da_cadeia(fontes@).0,
        match modo_da_cadeia(fontes@).1 {
            Some(o) => r.1 matches Some(x) && x@ == o,
            None => r.1 is None,
        },
        vistas(final(avisos)@) == vistas(old(avisos)@) + modo_da_cadeia(fontes@).2,
{
    let ghost f = fontes@;
    let ghost a0 = vistas(avisos@);
    let mut i: usize = 0;
    assert(f.subrange(0, f.len() as int) =~= f);
    while i < fontes.len()
        invariant
            0 <= i <= f.len(),
            f == fontes@,
            a0 == vistas(old(avisos)@),
            ({
                let (m0, o0, w0) = modo_da_cadeia(f);
                let (mi, oi, wi) = modo_da_cadeia(f.subrange(i as int, f.len() as int));
                &&& m0 == mi
                &&& o0 == oi
                &&& a0 + w0 == vistas(avisos@) + wi
            }),
        decreases f.len() - i,
    {
        let ghost resto = f.subrange(i as int, f.len() as int);
        assert(resto.drop_first() =~= f.subrange(i + 1, f.len() as int));
        assert(resto[0] == f[i as int]);
        match &fontes[i].valor {
            None => {},
            Some(v) => {
                match modo_do_texto(v.as_str()) {
                    Some(m) => {
                        proof {
                            let (mi, oi, wi) = modo_da_cadeia(resto);
                            assert(wi =~= Seq::<Seq<char>>::empty());
                            assert(vistas(avisos@) + wi =~= vistas(avisos@));
                            assert(vistas(avisos@) =~= a0 + modo_da_cadeia(f).2);
                        }
                        return (m, Some(fontes[i].nome));
                    },
                    None => {
                        let mut aviso = fontes[i].nome.to_owned();
                        aviso.append(": modo de cor «");
                        aviso.append(v.as_str());
                        aviso.append("» desconhecido — os valores são: auto, rgb, ansi");
                        let ghost antes = avisos@;
                        avisos.push(aviso);
                        assert(vistas(avisos@) =~= vistas(antes).push(
                            aviso_de_modo(f[i as int].nome@, v@),
                        ));
                        proof {
                            let (mi, oi, wi) = modo_da_cadeia(resto);
                            let (mj, oj, wj) = modo_da_cadeia(f.subrange(i + 1, f.len() as int));
                            assert(wi =~= seq![aviso_de_modo(f[i as int].nome@, v@)] + wj);
                            assert(vistas(antes).push(aviso_de_modo(f[i as int].nome@, v@)) + wj
                                =~= vistas(antes) + wi);
                        }
                    },
                }
            },
        }
        i = i + 1;
    }
    proof {
        assert(f.subrange(f.len() as int, f.len() as int) =~= Seq::<Fonte>::empty());
        let (m0, o0, w0) = modo_da_cadeia(f);
        assert(vistas(avisos@) =~= a0 + w0);
    }
    (ModoCor::Auto, None)
}

// ---------------------------------------------------------- the decision

/// Where the preferences file lives: `--config`, then the environment
/// variable, then the system's configuration directory.
pub fn caminho_da_config(opcoes: &Opcoes, ambiente: &Ambiente, config_dir: Option<&str>) -> (r:
    Result<String, ConfigError>)
    ensures
        ({
            let explicito = if opcoes.config is Some {
                opcoes.config
            } else {
                ambiente.config
            };
            &&& (explicito matches Some(p) ==> (r matches Ok(q) && q@ == p@))
            &&& (explicito is None ==> match config_dir {
                Some(base) => (r matches Ok(q) && q@ == caminho_junto(
                    caminho_junto(base@, crate::dominio::config::APP_DIR@),
                    CONFIG_FILE_NAME@,
                )),
                None => r == Err::<String, ConfigError>(ConfigError::NoConfigDir),
            })
        }),
{
    let explicito: Option<&str> = match &opcoes.config {
        Some(p) => Some(p.as_str()),
        None => match &ambiente.config {
            Some(p) => Some(p.as_str()),
            None => None,
        },
    };
    let env: Option<&str> = match &ambiente.config {
        Some(p) => Some(p.as_str()),
        None => None,
    };
    resolve_path(explicito, env, config_dir)
}

/// The warning when there is no place for a preferences file.
pub open spec fn aviso_do_caminho(e: ConfigError) -> Seq<char> {
    texto_do_erro_de_config(e) + " — sigo sem preferência guardada (o tema escolhe-se nesta sessão)"@
}

/// The theme the preferences file holds, when it was read.
pub open spec fn preferido(caminho: Result<String, ConfigError>, leitura: LeituraConfig) -> Option<String> {
    match caminho {
        Ok(_) => match leitura {
            LeituraConfig::Lida(c) => c.theme,
            _ => None,
        },
        Err(_) => None,
    }
}

/// The warnings of finding and reading the preferences file.
pub open spec fn avisos_da_config(caminho: Result<String, ConfigError>, leitura: LeituraConfig) -> Seq<Seq<char>> {
    match caminho {
        Err(e) => seq![aviso_do_caminho(e)],
        Ok(_) => match leitura {
            LeituraConfig::Falhou(e) => seq![crate::dominio::config::texto_do_aviso(e)],
            _ => seq![],
        },
    }
}

/// The chain of the theme: `--theme`, the environment, the file.
pub open spec fn fontes_do_tema(o: Opcoes, a: Ambiente, p: Option<String>) -> Seq<Fonte> {
    seq![
        Fonte { nome: "--theme", valor: o.theme },
        Fonte { nome: ENV_THEME, valor: a.theme },
        Fonte { nome: CONFIG_FILE_NAME, valor: p },
    ]
}

/// The chain of the colour mode: `--color`, the environment.
pub open spec fn fontes_do_modo(o: Opcoes, a: Ambiente) -> Seq<Fonte> {
    seq![Fonte { nome: "--color", valor: o.color }, Fonte { nome: ENV_COLOR, valor: a.color }]
}

/// The warning when the colour mode changes the theme: it says which mode
/// did it (asked for, or detected) and that the file stays as it is.
pub open spec fn aviso_de_cor(
    fonte: Option<Seq<char>>,
    modo: ModoCor,
    cores: u16,
    pedido: Theme,
    tema: Theme,
) -> Seq<char> {
    let origem = match fonte {
        Some(f) => f + "="@ + nome_spec(modo),
        None => "sem truecolor (detectado: "@ + nome_spec(detectado(modo, cores)) + ")"@,
    };
    origem + ": o tema «"@ + slug_spec(pedido) + "» pinta o fundo e não cabe em 16 cores — uso «"@
        + slug_spec(tema) + "» nesta sessão; o "@ + CONFIG_FILE_NAME@ + " fica como está"@
}

/// `r` is the start-up decided for these options, environment, preferences
/// file and reading of it, when the terminal announces `cores` colours.
pub open spec fn e_resolucao(
    r: Resolucao,
    o: Opcoes,
    a: Ambiente,
    caminho: Result<String, ConfigError>,
    leitura: LeituraConfig,
    cores: u16,
) -> bool {
    let (tema, w_tema) = escolha_do_tema(fontes_do_tema(o, a, preferido(caminho, leitura)));
    let (modo, fonte, w_modo) = modo_da_cadeia(fontes_do_modo(o, a));
    let drawn = desenhado(detectado(modo, cores), tema);
    &&& r.pedido == tema
    &&& r.tema == drawn
    &&& r.modo == modo
    &&& r.config_path == match caminho {
        Ok(p) => Some(p),
        Err(_) => None,
    }
    &&& vistas(r.avisos@) == avisos_da_config(caminho, leitura) + w_tema + w_modo + (if drawn != tema {
        seq![aviso_de_cor(fonte, modo, cores, tema, drawn)]
    } else {
        seq![]
    })
}

fn copia_texto(o: &Option<String>) -> (r: Option<String>)
    ensures
        r == *o,
{
    match o {
        Some(s) => Some(s.clone()),
        None => None,
    }
}

/// The start-up decided when the terminal announces `cores` colours.
///
/// `caminho` is where the preferences file lives (or why there is none) and
/// `leitura` what reading it gave; a file that could not be read leaves its
/// warning, and the chains go on without it.
pub fn resolver_com(
    opcoes: &Opcoes,
    ambiente: &Ambiente,
    caminho: Result<String, ConfigError>,
    leitura: LeituraConfig,
    cores: u16,
) -> (r: Resolucao)
    ensures
        e_resolucao(r, *opcoes, *ambiente, caminho, leitura, cores),
{
    let ghost lg = leitura;
    let ghost cm = caminho;
    let mut avisos: Vec<String> = Vec::new();
    let (config_path, preferencias) = match caminho {
        Ok(p) => {
            let (config, aviso) = Config::load_or_default(leitura);
            if let Some(a) = aviso {
                avisos.push(a);
            }
            (Some(p), config)
        },
        Err(err) => {
            let mut a = err.mensagem();
            a.append(" — sigo sem preferência guardada (o tema escolhe-se nesta sessão)");
            avisos.push(a);
            (None, Config { theme: None })
        },
    };
    assert(preferencias.theme == preferido(cm, lg));
    assert(vistas(avisos@) =~= avisos_da_config(cm, lg));
    let fontes_tema = vec![
        Fonte { nome: "--theme", valor: copia_texto(&opcoes.theme) },
        Fonte { nome: ENV_THEME, valor: copia_texto(&ambiente.theme) },
        Fonte { nome: CONFIG_FILE_NAME, valor: preferencias.theme },
    ];
    assert(fontes_tema@ =~= fontes_do_tema(*opcoes, *ambiente, preferido(cm, lg)));
    let tema = o_tema(&fontes_tema, &mut avisos);
    let fontes_modo = vec![
        Fonte { nome: "--color", valor: copia_texto(&opcoes.color) },
        Fonte { nome: ENV_COLOR, valor: copia_texto(&ambiente.color) },
    ];
    assert(fontes_modo@ =~= fontes_do_modo(*opcoes, *ambiente));
    let ghost depois_do_tema = vistas(avisos@);
    let (modo, fonte) = o_modo(&fontes_modo, &mut avisos);
    let ghost depois_do_modo = vistas(avisos@);
    let desenhado_agora = modo.detectar_com(cores).resolver_com(tema);
    if desenhado_agora != tema {
        let mut a = String::new();
        match fonte {
            Some(f) => {
                a.append(f);
                a.append("=");
                a.append(nome(modo));
            },
            None => {
                a.append("sem truecolor (detectado: ");
                a.append(nome(modo.detectar_com(cores)));
                a.append(")");
            },
        }
        a.append(": o tema «");
        a.append(tema.slug());
        a.append("» pinta o fundo e não cabe em 16 cores — uso «");
        a.append(desenhado_agora.slug());
        a.append("» nesta sessão; o ");
        a.append(CONFIG_FILE_NAME);
        a.append(" fica como está");
        let ghost antes = avisos@;
        avisos.push(a);
        assert(vistas(avisos@) =~= vistas(antes).push(
            aviso_de_cor(modo_da_cadeia(fontes_do_modo(*opcoes, *ambiente)).1, modo, cores, tema, desenhado_agora),
        ));
    }
    proof {
        let (t, wt) = escolha_do_tema(fontes_do_tema(*opcoes, *ambiente, preferido(cm, lg)));
        let (m, f, wm) = modo_da_cadeia(fontes_do_modo(*opcoes, *ambiente));
        let extra = if desenhado_agora != tema {
            seq![aviso_de_cor(f, m, cores, t, desenhado_agora)]
        } else {
            seq![]
        };
        assert(vistas(avisos@) =~= avisos_da_config(cm, lg) + wt + wm + extra);
    }
    Resolucao { pedido: tema, tema: desenhado_agora, modo, config_path, avisos }
}

/// The start-up decided; the colour mode `auto` asks the terminal. Whatever
/// the terminal announces, the result is the one [`resolver_com`] gives for
/// it.
pub fn resolver(
    opcoes: &Opcoes,
    ambiente: &Ambiente,
    caminho: Result<String, ConfigError>,
    leitura: LeituraConfig,
) -> (r: Resolucao)
    ensures
        exists|cores: u16| #[trigger] e_resolucao(r, *opcoes, *ambiente, caminho, leitura, cores),
{
    let cores = crate::tui::theme::cores_disponiveis();
    resolver_com(opcoes, ambiente, caminho, leitura, cores)
}

} // verus!
