//! The state the screen keeps between keys that needs no terminal: the
//! status line, the cycle of the filter key, and the texts of the messages
//! about categories.

use vstd::prelude::*;

use crate::dominio::import_export::{
    texto_do_erro_de_export, texto_do_erro_de_import, texto_do_resumo, ExportError, ImportError, ImportReport,
};
use crate::dominio::ops::{texto_do_erro_de_operacao, OpsError};
use crate::dominio::ops::{
    e_primeira_categoria, efeito_add_category, efeito_delete_category, efeito_rename_category,
    referencias_a, validacao_do_nome,
};
use crate::dominio::model::{Category, CategoryId, Priority, Todo, TodoId};
use crate::dominio::model::rotulo;
use crate::dominio::ops::{
    efeito_clear_completed, efeito_restore, efeito_restore_last_batch, indices_concluidas,
    lote_de_concluidas, maior_lote, no_lixo, ClearOutcome, efeito_remove, intacta, e_primeira,
    lemma_primeira, lemma_tem_primeira, resto_igual, lei_desfazer_remocao, lei_desfazer_limpeza, pendentes_de, primeira, saidas_do_lixo, so_dados, tarefa_trocada, tem_id,
    TRASH_LIMIT,
};
use crate::dominio::query::{
    concluidas_de, indice_da_categoria, indice_de_categoria, lemma_vista_do_mesmo_tamanho,
    lemma_vista_com_as_mesmas_tarefas, lixo_recente_primeiro, ordem_seguinte, parecidas, vista_buscada, CategoryFilter, Counts, Filter, SortKey,
};
use crate::dominio::store::{Db, Store, Trashed};
use crate::dominio::tempo::{desvio_local, Instante};
use crate::dominio::texto::{digito, empurrar, caracter_de};
use crate::dominio::texto::{aparado, aparar, decimal, em_decimal};
use crate::tui::event::{e_texto, Action, CodigoTecla, InputMode, Tecla};
use crate::tui::theme::{catalogo, catalogo_spec, desenhado, ModoCor, Theme};
use crate::tui::ui::{cortado, cortar};

verus! {

/// How long the second press of the guarded keys may wait, in seconds.
pub const ARM_WINDOW_SECS: u64 = 5;

/// How long an action message stays on the status line, in seconds.
pub const MESSAGE_TTL_SECS: u64 = 3;

/// Columns of a category name that fit in an action message; the name is
/// what is cut, never the count.
pub const NOME_NA_MENSAGEM: usize = 30;

/// The mark of the message of a removal, which stays while there is undo.
pub const UNDO_HINT: &'static str = "u para desfazer";

#[verifier::external_type_specification]
#[verifier::external_body]
pub struct ExInstant(std::time::Instant);

/// `Instant::now()`: the monotonic clock. Nothing is stated of the value.
#[verifier::external_body]
fn agora_monotono() -> (r: std::time::Instant) {
    std::time::Instant::now()
}

/// The whole seconds from `desde` to `agora` (zero when `agora` comes
/// first): what `Instant::saturating_duration_since` followed by
/// `Duration::as_secs` gives for these two instants.
pub uninterp spec fn segundos_entre(desde: std::time::Instant, agora: std::time::Instant) -> u64;

/// `agora.saturating_duration_since(desde).as_secs()`: the whole seconds
/// from `desde` to `agora`, zero when `agora` comes first. It depends on the
/// two instants alone, which is what the name says.
#[verifier::external_body]
fn segundos_decorridos(desde: &std::time::Instant, agora: &std::time::Instant) -> (r: u64)
    ensures
        r == segundos_entre(*desde, *agora),
{
    agora.saturating_duration_since(*desde).as_secs()
}

/// What the status line shows. An action message leaves by itself after
/// [`MESSAGE_TTL_SECS`]; a sticky one (undo available, overflow warning)
/// and an error stay until something replaces them.
#[derive(Debug, PartialEq, Eq)]
pub enum Status {
    Idle,
    Message { texto: String, desde: std::time::Instant },
    Sticky(String),
    Error(String),
}

/// The status at `agora`: an action message whose whole seconds since it was
/// born reach [`MESSAGE_TTL_SECS`] has left; anything else stays.
pub open spec fn apos_tick(s: Status, agora: std::time::Instant) -> Status {
    match s {
        Status::Message { desde, .. } => if segundos_entre(desde, agora) >= MESSAGE_TTL_SECS {
            Status::Idle
        } else {
            s
        },
        _ => s,
    }
}

impl Status {
    /// The text shown, when there is one.
    pub fn text(&self) -> (r: Option<&str>)
        ensures
            match *self {
                Status::Idle => r is None,
                Status::Message { texto, .. } => r matches Some(t) && t@ == texto@,
                Status::Sticky(texto) => r matches Some(t) && t@ == texto@,
                Status::Error(texto) => r matches Some(t) && t@ == texto@,
            },
    {
        match self {
            Status::Idle => None,
            Status::Message { texto, .. } => Some(texto.as_str()),
            Status::Sticky(texto) => Some(texto.as_str()),
            Status::Error(texto) => Some(texto.as_str()),
        }
    }

    /// Whether it is an error.
    pub fn is_error(&self) -> (r: bool)
        ensures
            r == (*self is Error),
    {
        match self {
            Status::Error(_) => true,
            _ => false,
        }
    }

    /// An action message, born now.
    pub fn message(texto: &str) -> (r: Status)
        ensures
            r matches Status::Message { texto: t, .. } && t@ == texto@,
    {
        Status::Message { texto: texto.to_owned(), desde: agora_monotono() }
    }

    /// A message that stays while it is true.
    pub fn sticky(texto: &str) -> (r: Status)
        ensures
            r matches Status::Sticky(t) && t@ == texto@,
    {
        Status::Sticky(texto.to_owned())
    }

    /// An error.
    pub fn error(texto: &str) -> (r: Status)
        ensures
            r matches Status::Error(t) && t@ == texto@,
    {
        Status::Error(texto.to_owned())
    }

    /// Lets an action message go once its time to live has passed at
    /// `agora`; the undo mark, the overflow warning and an error stay.
    pub fn tick(&mut self, agora: std::time::Instant)
        ensures
            *final(self) == apos_tick(*old(self), agora),
    {
        let segundos = match &*self {
            Status::Message { desde, .. } => segundos_decorridos(desde, &agora),
            _ => 0,
        };
        self.expira(segundos);
    }

    /// An action message `segundos` old leaves once it reaches the time to
    /// live, [`MESSAGE_TTL_SECS`]; any other status stays.
    pub fn expira(&mut self, segundos: u64)
        ensures
            *final(self) == (if *old(self) is Message && segundos >= MESSAGE_TTL_SECS {
                Status::Idle
            } else {
                *old(self)
            }),
    {
        let expirada = match &*self {
            Status::Message { .. } => segundos >= MESSAGE_TTL_SECS,
            _ => false,
        };
        if expirada {
            *self = Status::Idle;
        }
    }
}

/// The next filter of the cycle of `f`: pending, done, all. The trash is
/// not in the cycle: it is a view of its own.
pub open spec fn filtro_seguinte(f: Filter) -> Filter {
    match f {
        Filter::Active => Filter::Done,
        Filter::Done => Filter::All,
        _ => Filter::Active,
    }
}

/// The filter after `filter` in the cycle of the filter key.
pub fn next_filter(filter: Filter) -> (r: Filter)
    ensures
        r == filtro_seguinte(filter),
        r != Filter::Trash,
{
    match filter {
        Filter::Active => Filter::Done,
        Filter::Done => Filter::All,
        _ => Filter::Active,
    }
}

/// A category name cut to fit an action message.
pub open spec fn nome_cortado(nome: Seq<char>) -> Seq<char> {
    cortado(aparado(nome), NOME_NA_MENSAGEM as nat)
}

/// A category name, trimmed and cut to fit in an action message.
pub fn nome_na_mensagem(nome: &str) -> (r: String)
    ensures
        r@ == nome_cortado(nome@),
{
    let limpo = aparar(nome);
    cortar(limpo.as_str(), NOME_NA_MENSAGEM)
}

/// The message of a category deleted: the count is the price of a deletion
/// that cannot be undone, so it is never what is cut.
pub open spec fn texto_da_eliminacao(nome: Seq<char>, afectadas: nat) -> Seq<char> {
    if afectadas == 1 {
        "Eliminada «"@ + nome_cortado(nome) + "» · 1 tarefa ficou sem categoria"@
    } else {
        "Eliminada «"@ + nome_cortado(nome) + "» · "@ + decimal(afectadas)
            + " tarefas ficaram sem categoria"@
    }
}

/// `Eliminada «X» · N tarefas ficaram sem categoria`.
pub fn mensagem_eliminada(nome: &str, afectadas: usize) -> (r: String)
    ensures
        r@ == texto_da_eliminacao(nome@, afectadas as nat),
{
    let nome = nome_na_mensagem(nome);
    let mut s = "Eliminada «".to_owned();
    s.append(nome.as_str());
    if afectadas == 1 {
        s.append("» · 1 tarefa ficou sem categoria");
    } else {
        s.append("» · ");
        s.append(em_decimal(afectadas as u64).as_str());
        s.append(" tarefas ficaram sem categoria");
    }
    s
}

// ------------------------------------------------------------- selection

/// `x` held between `lo` and `hi`.
pub open spec fn entre(x: int, lo: int, hi: int) -> int {
    if x < lo {
        lo
    } else if x > hi {
        hi
    } else {
        x
    }
}

/// The selection of a view of `len` lines brought back inside it: none on an
/// empty view, the first line when there was none, the last when it was
/// beyond the end.
pub open spec fn limitada(sel: Option<usize>, len: usize) -> Option<usize> {
    if len == 0 {
        None
    } else {
        match sel {
            Some(i) => if i < len {
                Some(i)
            } else {
                Some((len - 1) as usize)
            },
            None => Some(0),
        }
    }
}

/// The selection never hangs outside the view: after a removal, a filter
/// or a change of view it comes back inside.
pub fn clamp_selection(sel: Option<usize>, len: usize) -> (r: Option<usize>)
    ensures
        r == limitada(sel, len),
{
    if len == 0 {
        return None;
    }
    match sel {
        Some(i) => if i < len {
            Some(i)
        } else {
            Some(len - 1)
        },
        None => Some(0),
    }
}

/// Line `indice` of a view of `len` lines, or the last one.
pub open spec fn na_linha(indice: usize, len: usize) -> Option<usize> {
    if len == 0 {
        None
    } else if indice < len {
        Some(indice)
    } else {
        Some((len - 1) as usize)
    }
}

/// Selects line `indice` of a view of `len` lines, or the last one.
pub fn select_index(indice: usize, len: usize) -> (r: Option<usize>)
    ensures
        r == na_linha(indice, len),
{
    if len == 0 {
        None
    } else if indice < len {
        Some(indice)
    } else {
        Some(len - 1)
    }
}

/// The selection `sel` moved `delta` lines in a view of `len` lines,
/// stopping at the first and the last line (no selection counts as the
/// first).
pub open spec fn movida_na_lista(sel: Option<usize>, delta: int, len: usize) -> Option<usize> {
    if len == 0 {
        None
    } else {
        Some(
            entre(
                match sel {
                    Some(i) => i as int,
                    None => 0,
                } + delta,
                0,
                len - 1,
            ) as usize,
        )
    }
}

/// Moves the selection `delta` lines in a view of `len` lines.
pub fn move_selection(sel: Option<usize>, delta: isize, len: usize) -> (r: Option<usize>)
    ensures
        r == movida_na_lista(sel, delta as int, len),
{
    if len == 0 {
        return None;
    }
    let actual: i128 = match sel {
        Some(i) => i as i128,
        None => 0,
    };
    let alvo: i128 = actual + delta as i128;
    let ultimo: i128 = (len - 1) as i128;
    let j: i128 = if alvo < 0 {
        0
    } else if alvo > ultimo {
        ultimo
    } else {
        alvo
    };
    Some(j as usize)
}

// -------------------------------------------------- the line of text

/// The line after the key `t`, with the cursor at `c`: `Ctrl+U` clears the
/// line (any other `Ctrl` key does nothing), a character goes in at the
/// cursor, `Backspace` and `Delete` take out the character before and under
/// the cursor, and the arrows, `Home` and `End` move it.
pub open spec fn editada(b: Seq<char>, c: nat, t: Tecla) -> (Seq<char>, nat) {
    if t.ctrl {
        if t.codigo == CodigoTecla::Char('u') {
            (seq![], 0)
        } else {
            (b, c)
        }
    } else {
        match t.codigo {
            CodigoTecla::Char(x) => (b.insert(c as int, x), c + 1),
            CodigoTecla::Backspace => if c > 0 {
                (b.remove(c - 1), (c - 1) as nat)
            } else {
                (b, c)
            },
            CodigoTecla::Delete => if c < b.len() {
                (b.remove(c as int), c)
            } else {
                (b, c)
            },
            CodigoTecla::Left => (b, if c > 0 {
                (c - 1) as nat
            } else {
                0
            }),
            CodigoTecla::Right => (b, if c + 1 <= b.len() {
                c + 1
            } else {
                b.len()
            }),
            CodigoTecla::Home => (b, 0),
            CodigoTecla::End => (b, b.len()),
            _ => (b, c),
        }
    }
}

// ------------------------------------------------------------ the session

/// The session as the contracts read it.
pub struct VistaSessao {
    pub mode: InputMode,
    /// The mode an overlay (help, theme box) goes back to.
    pub return_mode: InputMode,
    pub theme: Theme,
    /// The theme in force when the theme box opened.
    pub tema_gravado: Theme,
    pub theme_cursor: nat,
    pub modo_cor: ModoCor,
    pub linha: Seq<char>,
    pub cursor: nat,
    /// In `Editing`: `Enter` writes the description instead of the title.
    pub descricao: bool,
    pub a_sair: bool,
}

/// The state of the screen that is not the data: the mode and where an
/// overlay returns, the theme drawn and the theme box, the line of text and
/// its cursor, and whether the user asked to quit.
pub struct Sessao {
    mode: InputMode,
    return_mode: InputMode,
    theme: Theme,
    theme_entrada: Theme,
    theme_cursor: usize,
    modo_cor: ModoCor,
    buffer: Vec<char>,
    cursor: usize,
    editing_description: bool,
    quitting: bool,
}

impl View for Sessao {
    type V = VistaSessao;

    closed spec fn view(&self) -> VistaSessao {
        VistaSessao {
            mode: self.mode,
            return_mode: self.return_mode,
            theme: self.theme,
            tema_gravado: self.theme_entrada,
            theme_cursor: self.theme_cursor as nat,
            modo_cor: self.modo_cor,
            linha: self.buffer@,
            cursor: self.cursor as nat,
            descricao: self.editing_description,
            a_sair: self.quitting,
        }
    }
}

/// The position of `t` in the catalogue.
pub open spec fn posicao_spec(t: Theme) -> nat {
    match t {
        Theme::TokyoNight => 0,
        Theme::TokyoNightStorm => 1,
        Theme::TokyoNightMoon => 2,
        Theme::Classico => 3,
    }
}

/// A session that starts on the list, with `theme` and the colour mode
/// `modo_cor` already detected.
pub open spec fn inicial(theme: Theme, modo_cor: ModoCor) -> VistaSessao {
    VistaSessao {
        mode: InputMode::Normal,
        return_mode: InputMode::Normal,
        theme,
        tema_gravado: theme,
        theme_cursor: posicao_spec(theme),
        modo_cor,
        linha: seq![],
        cursor: 0,
        descricao: false,
        a_sair: false,
    }
}

/// The mode under the overlay: with the help open, the view it was opened
/// from.
pub open spec fn contexto(v: VistaSessao) -> InputMode {
    if v.mode == InputMode::Help {
        v.return_mode
    } else {
        v.mode
    }
}

/// `?`: the help opens over the current view and remembers it.
pub open spec fn com_ajuda(v: VistaSessao) -> VistaSessao {
    VistaSessao { return_mode: v.mode, mode: InputMode::Help, ..v }
}

/// `Esc` outside a line of text: the help and the category box go back to
/// the view they came from; anything else (the trash) goes back to the list.
pub open spec fn cancelada(v: VistaSessao) -> VistaSessao {
    VistaSessao {
        mode: if v.mode == InputMode::Help || v.mode == InputMode::Category {
            v.return_mode
        } else {
            InputMode::Normal
        },
        return_mode: InputMode::Normal,
        ..v
    }
}

/// `C`: the category box opens over the current view and remembers it.
pub open spec fn com_caixa_de_categorias(v: VistaSessao) -> VistaSessao {
    VistaSessao { return_mode: v.mode, mode: InputMode::Category, ..v }
}

/// The line of the name of a category, opened from the box with `texto` in
/// it: `Enter` and `Esc` go back to the box.
pub open spec fn com_linha_do_nome(v: VistaSessao, texto: Seq<char>) -> VistaSessao {
    VistaSessao {
        mode: InputMode::CategoryName,
        return_mode: InputMode::Category,
        linha: texto,
        cursor: texto.len(),
        descricao: false,
        ..v
    }
}

/// Back from the line of the name to the box it opened from, the line
/// empty.
pub open spec fn de_volta_a_caixa(v: VistaSessao) -> VistaSessao {
    VistaSessao {
        mode: v.return_mode,
        return_mode: InputMode::Normal,
        linha: seq![],
        cursor: 0,
        descricao: false,
        ..v
    }
}

/// `T`: the theme box opens on the theme in force, which is what `Esc`
/// brings back.
pub open spec fn com_caixa_de_temas(v: VistaSessao) -> VistaSessao {
    VistaSessao {
        tema_gravado: v.theme,
        theme_cursor: posicao_spec(v.theme),
        return_mode: v.mode,
        mode: InputMode::Theme,
        ..v
    }
}

/// Up and down in the theme box: the cursor moves without going round, and
/// the candidate is drawn at once, as the colour mode draws it.
pub open spec fn movida(v: VistaSessao, delta: int) -> VistaSessao {
    if v.mode != InputMode::Theme {
        v
    } else {
        let novo = entre(v.theme_cursor + delta, 0, 3);
        VistaSessao {
            theme_cursor: novo as nat,
            theme: desenhado(v.modo_cor, catalogo_spec()[novo]),
            ..v
        }
    }
}

/// The theme box closed: back to the mode it opened over, the cursor on the
/// theme drawn.
pub open spec fn fechada(v: VistaSessao) -> VistaSessao {
    VistaSessao {
        mode: v.return_mode,
        return_mode: InputMode::Normal,
        theme_cursor: posicao_spec(v.theme),
        ..v
    }
}

/// `Enter` in the theme box: the choice under the cursor is applied, as the
/// colour mode draws it, and the box closes.
pub open spec fn confirmada(v: VistaSessao) -> VistaSessao {
    if v.mode != InputMode::Theme {
        v
    } else {
        fechada(
            VistaSessao {
                theme: desenhado(v.modo_cor, catalogo_spec()[v.theme_cursor as int]),
                ..v
            },
        )
    }
}

/// `Esc` in the theme box: the theme it opened with comes back, exactly.
pub open spec fn tema_cancelado(v: VistaSessao) -> VistaSessao {
    if v.mode != InputMode::Theme {
        v
    } else {
        fechada(VistaSessao { theme: v.tema_gravado, ..v })
    }
}

/// A line of text opened in `mode` with `texto`, the cursor at its end.
pub open spec fn com_linha(v: VistaSessao, mode: InputMode, texto: Seq<char>, descricao: bool) -> VistaSessao {
    VistaSessao { mode, linha: texto, cursor: texto.len(), descricao, ..v }
}

/// The line of text closed: back to the list, the line empty.
pub open spec fn sem_linha(v: VistaSessao) -> VistaSessao {
    VistaSessao { mode: InputMode::Normal, linha: seq![], cursor: 0, descricao: false, ..v }
}

impl Sessao {
    #[verifier::type_invariant]
    spec fn bem_formada(&self) -> bool {
        &&& self.cursor <= self.buffer@.len()
        &&& self.theme_cursor < 4
    }

    /// The session of the start: the list, `theme`, and the colour mode
    /// `modo_cor`, detected (`auto` asks the terminal).
    pub fn com_tema(theme: Theme, modo_cor: ModoCor) -> (r: Sessao)
        ensures
            modo_cor != ModoCor::Auto ==> r@ == inicial(theme, modo_cor),
            modo_cor == ModoCor::Auto ==> r@.modo_cor != ModoCor::Auto && r@ == inicial(
                theme,
                r@.modo_cor,
            ),
    {
        Sessao {
            mode: InputMode::Normal,
            return_mode: InputMode::Normal,
            theme,
            theme_entrada: theme,
            theme_cursor: theme.posicao(),
            modo_cor: modo_cor.detectar(),
            buffer: Vec::new(),
            cursor: 0,
            editing_description: false,
            quitting: false,
        }
    }

    /// The session of the tests: the default theme in `rgb`, the mode that
    /// asks nothing of the terminal.
    pub fn new() -> (r: Sessao)
        ensures
            r@ == inicial(Theme::TokyoNight, ModoCor::Rgb),
    {
        Sessao::com_tema(Theme::TokyoNight, ModoCor::Rgb)
    }

    pub fn mode(&self) -> (r: InputMode)
        ensures
            r == self@.mode,
    {
        self.mode
    }

    /// The theme drawn.
    pub fn theme(&self) -> (r: Theme)
        ensures
            r == self@.theme,
    {
        self.theme
    }

    /// The theme in force when the theme box opened (outside the box, the
    /// theme drawn).
    pub fn tema_gravado(&self) -> (r: Theme)
        ensures
            r == self@.tema_gravado,
    {
        self.theme_entrada
    }

    /// The cursor of the theme box, a position in the catalogue.
    pub fn theme_cursor(&self) -> (r: usize)
        ensures
            r == self@.theme_cursor,
            r < 4,
    {
        proof {
            use_type_invariant(self);
        }
        self.theme_cursor
    }

    pub fn modo_cor(&self) -> (r: ModoCor)
        ensures
            r == self@.modo_cor,
    {
        self.modo_cor
    }

    /// The line of text being written.
    pub fn input(&self) -> (r: String)
        ensures
            r@ == self@.linha,
    {
        crate::dominio::texto::texto_de(&self.buffer)
    }

    /// The position of the cursor in the line, in characters.
    pub fn cursor(&self) -> (r: usize)
        ensures
            r == self@.cursor,
            r <= self@.linha.len(),
    {
        proof {
            use_type_invariant(self);
        }
        self.cursor
    }

    /// In `Editing`, whether `Enter` writes the description.
    pub fn editing_description(&self) -> (r: bool)
        ensures
            r == self@.descricao,
    {
        self.editing_description
    }

    pub fn should_quit(&self) -> (r: bool)
        ensures
            r == self@.a_sair,
    {
        self.quitting
    }

    /// The mode under the overlay.
    pub fn context(&self) -> (r: InputMode)
        ensures
            r == contexto(self@),
    {
        if self.mode == InputMode::Help {
            self.return_mode
        } else {
            self.mode
        }
    }

    /// `q` or `Ctrl+C`.
    pub fn quit(&mut self)
        ensures
            final(self)@ == (VistaSessao { a_sair: true, ..old(self)@ }),
    {
        proof {
            use_type_invariant(&*self);
        }
        self.quitting = true;
    }

    /// `?`.
    pub fn abrir_ajuda(&mut self)
        ensures
            final(self)@ == com_ajuda(old(self)@),
    {
        proof {
            use_type_invariant(&*self);
        }
        self.return_mode = self.mode;
        self.mode = InputMode::Help;
    }

    /// `Esc` outside a line of text.
    pub fn cancelar(&mut self)
        ensures
            final(self)@ == cancelada(old(self)@),
    {
        proof {
            use_type_invariant(&*self);
        }
        self.mode = if self.mode == InputMode::Help || self.mode == InputMode::Category {
            self.return_mode
        } else {
            InputMode::Normal
        };
        self.return_mode = InputMode::Normal;
    }

    /// `C`: opens the category box.
    pub fn abrir_caixa_de_categorias(&mut self)
        ensures
            final(self)@ == com_caixa_de_categorias(old(self)@),
    {
        proof {
            use_type_invariant(&*self);
        }
        self.return_mode = self.mode;
        self.mode = InputMode::Category;
    }

    /// Opens the line of the name of a category with `texto` in it.
    pub fn abrir_linha_do_nome(&mut self, texto: &str)
        ensures
            final(self)@ == com_linha_do_nome(old(self)@, texto@),
    {
        self.open_line(InputMode::CategoryName, texto, false);
        proof {
            use_type_invariant(&*self);
        }
        self.return_mode = InputMode::Category;
    }

    /// Closes the line of the name and goes back to the box.
    pub fn voltar_a_caixa(&mut self)
        ensures
            final(self)@ == de_volta_a_caixa(old(self)@),
    {
        proof {
            use_type_invariant(&*self);
        }
        self.mode = self.return_mode;
        self.return_mode = InputMode::Normal;
        self.cursor = 0;
        self.buffer = Vec::new();
        self.editing_description = false;
    }

    /// `L`: the trash view opens, or closes back to the list.
    pub fn alternar_lixo(&mut self)
        ensures
            final(self)@ == (VistaSessao {
                mode: if old(self)@.mode == InputMode::Trash {
                    InputMode::Normal
                } else {
                    InputMode::Trash
                },
                ..old(self)@
            }),
    {
        proof {
            use_type_invariant(&*self);
        }
        self.mode = if self.mode == InputMode::Trash {
            InputMode::Normal
        } else {
            InputMode::Trash
        };
    }

    /// `T`.
    pub fn abrir_caixa_de_temas(&mut self)
        ensures
            final(self)@ == com_caixa_de_temas(old(self)@),
    {
        proof {
            use_type_invariant(&*self);
        }
        self.theme_entrada = self.theme;
        self.theme_cursor = self.theme.posicao();
        self.return_mode = self.mode;
        self.mode = InputMode::Theme;
    }

    /// Up and down in the theme box (nothing outside it).
    pub fn mover_na_caixa_de_temas(&mut self, delta: isize)
        ensures
            final(self)@ == movida(old(self)@, delta as int),
    {
        if self.mode != InputMode::Theme {
            return;
        }
        proof {
            use_type_invariant(&*self);
        }
        let alvo: i128 = self.theme_cursor as i128 + delta as i128;
        let novo: usize = if alvo < 0 {
            0
        } else if alvo > 3 {
            3
        } else {
            alvo as usize
        };
        let cat = catalogo();
        self.theme_cursor = novo;
        self.theme = self.modo_cor.resolver_com(cat[novo]);
    }

    fn fechar_caixa_de_temas(&mut self)
        ensures
            final(self)@ == fechada(old(self)@),
    {
        proof {
            use_type_invariant(&*self);
        }
        self.mode = self.return_mode;
        self.return_mode = InputMode::Normal;
        self.theme_cursor = self.theme.posicao();
    }

    /// `Enter` in the theme box: applies the choice and closes. Returns the
    /// choice to record in the preferences file when `com_ficheiro` (there is
    /// a file for them); nothing outside the box.
    pub fn confirmar_tema(&mut self, com_ficheiro: bool) -> (r: Option<Theme>)
        ensures
            final(self)@ == confirmada(old(self)@),
            r == (if old(self)@.mode == InputMode::Theme && com_ficheiro {
                Some(catalogo_spec()[old(self)@.theme_cursor as int])
            } else {
                None
            }),
    {
        if self.mode != InputMode::Theme {
            return None;
        }
        proof {
            use_type_invariant(&*self);
        }
        let cat = catalogo();
        let escolhido = cat[self.theme_cursor];
        self.theme = self.modo_cor.resolver_com(escolhido);
        self.fechar_caixa_de_temas();
        if com_ficheiro {
            Some(escolhido)
        } else {
            None
        }
    }

    /// `Esc` or `q` in the theme box.
    pub fn cancelar_tema(&mut self)
        ensures
            final(self)@ == tema_cancelado(old(self)@),
    {
        proof {
            use_type_invariant(&*self);
        }
        if self.mode != InputMode::Theme {
            return;
        }
        self.theme = self.theme_entrada;
        self.fechar_caixa_de_temas();
    }

    /// Opens a line of text in `mode` with `texto` in it.
    pub fn open_line(&mut self, mode: InputMode, texto: &str, descricao: bool)
        ensures
            final(self)@ == com_linha(old(self)@, mode, texto@, descricao),
    {
        proof {
            use_type_invariant(&*self);
        }
        let v = crate::dominio::texto::caracteres(texto);
        self.cursor = 0;
        self.buffer = v;
        self.cursor = self.buffer.len();
        self.mode = mode;
        self.editing_description = descricao;
    }

    /// Closes the line of text.
    pub fn close_line(&mut self)
        ensures
            final(self)@ == sem_linha(old(self)@),
    {
        proof {
            use_type_invariant(&*self);
        }
        self.mode = InputMode::Normal;
        self.cursor = 0;
        self.buffer = Vec::new();
        self.editing_description = false;
    }

    /// Takes the characters of the line out, leaving it empty.
    fn tirar_linha(&mut self) -> (r: Vec<char>)
        ensures
            r@ == old(self)@.linha,
            final(self)@ == (VistaSessao { linha: seq![], cursor: 0, ..old(self)@ }),
    {
        proof {
            use_type_invariant(&*self);
        }
        self.cursor = 0;
        let mut b: Vec<char> = Vec::new();
        std::mem::swap(&mut b, &mut self.buffer);
        b
    }

    /// A key of the line of text.
    pub fn edit_buffer(&mut self, tecla: Tecla)
        ensures
            ({
                let (b, c) = editada(old(self)@.linha, old(self)@.cursor, tecla);
                final(self)@ == VistaSessao { linha: b, cursor: c, ..old(self)@ }
            }),
    {
        proof {
            use_type_invariant(&*self);
        }
        let c0 = self.cursor;
        let mut b = self.tirar_linha();
        let mut c: usize = c0;
        if tecla.ctrl {
            if tecla.codigo == CodigoTecla::Char('u') {
                b = Vec::new();
                c = 0;
            }
        } else {
            match tecla.codigo {
                CodigoTecla::Char(x) => {
                    b.insert(c, x);
                    let n = b.len();
                    assert(c < n);
                    c = c + 1;
                },
                CodigoTecla::Backspace => {
                    if c > 0 {
                        c = c - 1;
                        b.remove(c);
                    }
                },
                CodigoTecla::Delete => {
                    if c < b.len() {
                        b.remove(c);
                    }
                },
                CodigoTecla::Left => {
                    if c > 0 {
                        c = c - 1;
                    }
                },
                CodigoTecla::Right => {
                    if c < b.len() {
                        c = c + 1;
                    }
                },
                CodigoTecla::Home => {
                    c = 0;
                },
                CodigoTecla::End => {
                    c = b.len();
                },
                _ => {},
            }
        }
        self.buffer = b;
        self.cursor = c;
    }
}

/// The session after moving the theme box cursor by each of `deltas`.
pub open spec fn movida_varias(v: VistaSessao, deltas: Seq<int>) -> VistaSessao
    decreases deltas.len(),
{
    if deltas.len() == 0 {
        v
    } else {
        movida(movida_varias(v, deltas.drop_last()), deltas.last())
    }
}

proof fn lemma_movida_varias(v: VistaSessao, deltas: Seq<int>)
    requires
        v.mode == InputMode::Theme,
    ensures
        movida_varias(v, deltas).mode == InputMode::Theme,
        movida_varias(v, deltas).return_mode == v.return_mode,
        movida_varias(v, deltas).tema_gravado == v.tema_gravado,
        movida_varias(v, deltas).modo_cor == v.modo_cor,
    decreases deltas.len(),
{
    if deltas.len() > 0 {
        lemma_movida_varias(v, deltas.drop_last());
    }
}

/// `Esc` in the theme box brings back exactly the theme it opened with,
/// however the cursor moved, and the view it opened over.
pub proof fn lei_cancelar_tema_repoe(v: VistaSessao, deltas: Seq<int>)
    requires
        v.mode != InputMode::Theme,
    ensures
        tema_cancelado(movida_varias(com_caixa_de_temas(v), deltas)).theme == v.theme,
        tema_cancelado(movida_varias(com_caixa_de_temas(v), deltas)).mode == v.mode,
{
    lemma_movida_varias(com_caixa_de_temas(v), deltas);
}

/// `Enter` in the theme box without moving changes nothing that is drawn,
/// when the theme in force is the one its colour mode draws.
pub proof fn lei_confirmar_sem_mover(v: VistaSessao)
    requires
        desenhado(v.modo_cor, v.theme) == v.theme,
    ensures
        confirmada(com_caixa_de_temas(v)).theme == v.theme,
        confirmada(com_caixa_de_temas(v)).mode == v.mode,
{
    assert(catalogo_spec()[posicao_spec(v.theme) as int] == v.theme);
}

/// The help goes back to the view it was opened from.
pub proof fn lei_ajuda_volta(v: VistaSessao)
    ensures
        cancelada(com_ajuda(v)).mode == v.mode,
        contexto(com_ajuda(v)) == v.mode,
{
}

// ------------------------------------------------- texts of the status

/// The status line of an operation that failed: a failed save says where
/// nothing was written and that the list in memory lost nothing; any other
/// error says what it is.
pub open spec fn texto_de_falha(e: OpsError, caminho: Seq<char>) -> Seq<char> {
    match e {
        OpsError::Persist(_) => "Erro: não gravou "@ + caminho + " — lista intacta"@,
        _ => "Erro: "@ + texto_do_erro_de_operacao(e),
    }
}

/// The error status of an operation on the database at `caminho`.
pub fn erro(err: &OpsError, caminho: &str) -> (r: Status)
    ensures
        r matches Status::Error(t) && t@ == texto_de_falha(*err, caminho@),
{
    let mut s = "Erro: ".to_owned();
    match err {
        OpsError::Persist(_) => {
            s.append("não gravou ");
            s.append(caminho);
            s.append(" — lista intacta");
        },
        _ => {
            let m = err.mensagem();
            s.append(m.as_str());
        },
    }
    proof {
        reveal_strlit("Erro: ");
        reveal_strlit("não gravou ");
        reveal_strlit("Erro: não gravou ");
    }
    assert(s@ =~= texto_de_falha(*err, caminho@));
    Status::Error(s)
}

/// The status line when a category name is refused: an empty name, or the
/// name written (trimmed and cut) that another category already has; any
/// other error as for any operation.
pub open spec fn texto_do_erro_de_nome(e: OpsError, escrito: Seq<char>, caminho: Seq<char>) -> Seq<
    char,
> {
    match e {
        OpsError::EmptyName => "Erro: o nome não pode ficar vazio"@,
        OpsError::DuplicateName(_) => "Erro: já existe uma categoria chamada «"@ + nome_cortado(
            escrito,
        ) + "»"@,
        _ => texto_de_falha(e, caminho),
    }
}

/// The error status of creating or renaming a category with `escrito`.
pub fn erro_de_nome(err: &OpsError, escrito: &str, caminho: &str) -> (r: Status)
    ensures
        r matches Status::Error(t) && t@ == texto_do_erro_de_nome(*err, escrito@, caminho@),
{
    match err {
        OpsError::EmptyName => Status::Error("Erro: o nome não pode ficar vazio".to_owned()),
        OpsError::DuplicateName(_) => {
            let mut s = "Erro: já existe uma categoria chamada «".to_owned();
            let nome = nome_na_mensagem(escrito);
            s.append(nome.as_str());
            s.append("»");
            Status::Error(s)
        },
        _ => erro(err, caminho),
    }
}

/// `Tema «Nome» gravado`.
pub open spec fn texto_tema_gravado(t: Theme) -> Seq<char> {
    "Tema «"@ + crate::tui::theme::nome_spec(t) + "» gravado"@
}

/// The message once the theme box wrote the choice `t`.
pub fn mensagem_tema_gravado(t: Theme) -> (r: Status)
    ensures
        r matches Status::Message { texto, .. } && texto@ == texto_tema_gravado(t),
{
    let mut s = "Tema «".to_owned();
    s.append(t.nome());
    s.append("» gravado");
    Status::Message { texto: s, desde: agora_monotono() }
}

/// `Erro: não gravou <caminho> — tema aplicado só nesta sessão`.
pub open spec fn texto_tema_nao_gravado(caminho: Seq<char>) -> Seq<char> {
    "Erro: não gravou "@ + caminho + " — tema aplicado só nesta sessão"@
}

/// The error once writing the preferences file at `caminho` failed: the
/// theme stays for this session.
pub fn erro_tema_nao_gravado(caminho: &str) -> (r: Status)
    ensures
        r matches Status::Error(t) && t@ == texto_tema_nao_gravado(caminho@),
{
    let mut s = "Erro: não gravou ".to_owned();
    s.append(caminho);
    s.append(" — tema aplicado só nesta sessão");
    Status::Error(s)
}

/// The line of an import: the summary, after `Importação sem alterações`
/// when nothing came in and `Importado` otherwise.
pub open spec fn texto_da_importacao(r: ImportReport) -> Seq<char> {
    (if r.inseridos == 0 && r.lixo == 0 && r.categorias_criadas == 0 {
        "Importação sem alterações"@
    } else {
        "Importado"@
    }) + ": "@ + texto_do_resumo(r)
}

/// The message of an import that went through.
pub fn mensagem_da_importacao(relatorio: &ImportReport) -> (r: Status)
    ensures
        r matches Status::Message { texto, .. } && texto@ == texto_da_importacao(*relatorio),
{
    let mut s = if relatorio.sem_alteracoes() {
        "Importação sem alterações".to_owned()
    } else {
        "Importado".to_owned()
    };
    s.append(": ");
    let resumo = relatorio.resumo();
    s.append(resumo.as_str());
    Status::Message { texto: s, desde: agora_monotono() }
}

// ---------------------------------------------------------------- the App

/// What the screen asks of the outside after an action: nothing, to write
/// the database, to write the theme preference, or to import or export the
/// file at a path.
#[derive(Debug, Clone, PartialEq, Eq)]
pub enum Efeito {
    Nada,
    Gravar,
    GravarTema(Theme),
    Importar(String),
    Exportar(String),
}

/// The whole state of the screen: the data, the session (mode, theme, line
/// of text), the status line, the filters, the order, the search, the
/// selected line of the view, the category box, the preferences file, and
/// which guard is armed and until when.
pub struct App {
    pub store: Store,
    pub sessao: Sessao,
    pub status: Status,
    pub filter: Filter,
    pub sort: SortKey,
    pub category_filter: CategoryFilter,
    pub query: String,
    pub selecionada: Option<usize>,
    /// The line of the category box under the cursor: 0 is «no category»,
    /// then the categories in the order they were created.
    pub categoria_cursor: usize,
    /// In the line of the name of a category: whether `Enter` renames the
    /// category under the cursor (and does not create one).
    pub renomear_categoria: bool,
    pub config_path: Option<String>,
    pub armado: Option<(Guarda, std::time::Instant)>,
}

/// The guard in force when the clock says `a_tempo` of the deadline of the
/// guard armed in `armado`: that guard while its window is open.
pub open spec fn guarda_em_vigor(armado: Option<(Guarda, std::time::Instant)>, a_tempo: bool) -> Option<
    Guarda,
> {
    match armado {
        Some((g, _)) => if a_tempo {
            Some(g)
        } else {
            None
        },
        None => None,
    }
}

/// What a guard protects: the two operations without undo, each confirmed
/// only by a second press of its own key.
#[derive(Debug, Clone, PartialEq, Eq)]
pub enum Guarda {
    /// `c` in the trash view: empty the trash.
    EsvaziarLixo,
    /// `d` in the category box: delete this category.
    EliminarCategoria(CategoryId),
}

/// What the screen shows: in the trash view, the trash entries newest
/// first; otherwise the tasks of the filter and of the category filter
/// `categoria` that the search `busca` finds, in the order `ordem`, where
/// `All` shows the pending ones first and the done ones at the end, each
/// group ordered on its own.
pub open spec fn vista_do_ecra(
    modo: InputMode,
    filtro: Filter,
    ordem: SortKey,
    categoria: CategoryFilter,
    busca: Seq<char>,
    db: Db,
) -> Seq<Todo> {
    if modo == InputMode::Trash {
        lixo_recente_primeiro(db.trash@)
    } else {
        match filtro {
            Filter::All => vista_buscada(Filter::Active, ordem, categoria, busca, db) + vista_buscada(
                Filter::Done,
                ordem,
                categoria,
                busca,
                db,
            ),
            f => vista_buscada(f, ordem, categoria, busca, db),
        }
    }
}

pub open spec fn vista_app(a: App) -> Seq<Todo> {
    vista_do_ecra(a.sessao@.mode, a.filter, a.sort, a.category_filter, a.query@, a.store.dados())
}

/// The task on the selected line, if the selection is inside the view.
pub open spec fn selecao(a: App) -> Option<Todo> {
    match a.selecionada {
        Some(i) => if (i as int) < vista_app(a).len() {
            Some(vista_app(a)[i as int])
        } else {
            None
        },
        None => None,
    }
}

/// The selection of `a` brought inside the view of `b`.
pub open spec fn limitada_em(a: App, b: App) -> Option<usize> {
    if vista_app(b).len() == 0 {
        None
    } else {
        match a.selecionada {
            Some(i) => if (i as int) < vista_app(b).len() {
                Some(i)
            } else {
                Some((vista_app(b).len() - 1) as usize)
            },
            None => Some(0),
        }
    }
}

impl App {
    /// The screen of the start: the list with its first task selected, the
    /// theme and colour mode decided at start, and where the theme box
    /// writes.
    pub fn com_tema(store: Store, theme: Theme, config_path: Option<String>, modo_cor: ModoCor) -> (r:
        App)
        ensures
            r.store == store,
            r.status is Idle,
            r.filter == Filter::All,
            r.sort == SortKey::Priority,
            r.category_filter == CategoryFilter::Todas,
            r.categoria_cursor == 0,
            !r.renomear_categoria,
            r.query@.len() == 0,
            r.config_path == config_path,
            r.armado is None,
            r.sessao@ == inicial(theme, r.sessao@.modo_cor),
            modo_cor != ModoCor::Auto ==> r.sessao@.modo_cor == modo_cor,
            r.selecionada == (if vista_app(r).len() == 0 {
                None
            } else {
                Some(0usize)
            }),
    {
        let mut app = App {
            store,
            sessao: Sessao::com_tema(theme, modo_cor),
            status: Status::Idle,
            filter: Filter::All,
            sort: SortKey::Priority,
            category_filter: CategoryFilter::Todas,
            query: String::new(),
            selecionada: None,
            categoria_cursor: 0,
            renomear_categoria: false,
            config_path,
            armado: None,
        };
        app.clamp_selection();
        app
    }

    /// The screen of the tests: the default theme in `rgb`, and no
    /// preferences file to write.
    pub fn new(store: Store) -> (r: App)
        ensures
            r.store == store,
            r.status is Idle,
            r.filter == Filter::All,
            r.config_path is None,
            r.sessao@ == inicial(Theme::TokyoNight, ModoCor::Rgb),
            r.selecionada == (if vista_app(r).len() == 0 {
                None
            } else {
                Some(0usize)
            }),
    {
        App::com_tema(store, Theme::TokyoNight, None, ModoCor::Rgb)
    }

    pub fn store(&self) -> (r: &Store)
        ensures
            *r == self.store,
    {
        &self.store
    }

    pub fn should_quit(&self) -> (r: bool)
        ensures
            r == self.sessao@.a_sair,
    {
        self.sessao.should_quit()
    }

    pub fn mode(&self) -> (r: InputMode)
        ensures
            r == self.sessao@.mode,
    {
        self.sessao.mode()
    }

    /// The line of text being written.
    pub fn input(&self) -> (r: String)
        ensures
            r@ == self.sessao@.linha,
    {
        self.sessao.input()
    }

    /// The position of the cursor in the line, in characters.
    pub fn cursor(&self) -> (r: usize)
        ensures
            r == self.sessao@.cursor,
            r <= self.sessao@.linha.len(),
    {
        self.sessao.cursor()
    }

    /// The guard in force when the clock says `a_tempo` of the deadline of
    /// the one armed: that guard while its window is open, none otherwise.
    pub fn em_vigor(&self, a_tempo: bool) -> (r: Option<&Guarda>)
        ensures
            match r {
                Some(g) => guarda_em_vigor(self.armado, a_tempo) == Some(*g),
                None => guarda_em_vigor(self.armado, a_tempo) is None,
            },
    {
        match &self.armado {
            Some((g, _)) => if a_tempo {
                Some(g)
            } else {
                None
            },
            None => None,
        }
    }

    /// Whether the window of the guard armed is still open: the clock's
    /// answer for its deadline, `false` with no guard armed.
    fn janela_aberta(&self) -> (r: bool)
        ensures
            self.armado is None ==> !r,
    {
        match &self.armado {
            Some((_, fim)) => ainda_a_tempo(fim),
            None => false,
        }
    }

    /// Whether the guard of emptying the trash is armed and still in time.
    /// The window is the clock's answer; [`App::em_vigor`] decides with it.
    pub fn armed(&self) -> (r: bool)
        ensures
            r ==> self.armado matches Some((Guarda::EsvaziarLixo, _)),
    {
        let a_tempo = self.janela_aberta();
        match self.em_vigor(a_tempo) {
            Some(Guarda::EsvaziarLixo) => true,
            _ => false,
        }
    }

    /// The category armed for deletion (`d` once in the box), while the
    /// window is still open. The window is the clock's answer;
    /// [`App::em_vigor`] decides with it.
    pub fn categoria_armada(&self) -> (r: Option<&CategoryId>)
        ensures
            r matches Some(id) ==> self.armado matches Some((Guarda::EliminarCategoria(c), _)) && c == *id,
    {
        let a_tempo = self.janela_aberta();
        match self.em_vigor(a_tempo) {
            Some(Guarda::EliminarCategoria(id)) => Some(id),
            _ => None,
        }
    }

    /// In the line of the name of a category: whether `Enter` renames.
    pub fn renomeando_categoria(&self) -> (r: bool)
        ensures
            r == self.renomear_categoria,
    {
        self.renomear_categoria
    }

    /// The view under the overlay: with the help open, the one it was
    /// opened from.
    pub fn context(&self) -> (r: InputMode)
        ensures
            r == contexto(self.sessao@),
    {
        self.sessao.context()
    }

    /// How many tasks are pending, done and in the trash.
    pub fn counts(&self) -> (r: Counts)
        ensures
            r.active == pendentes_de(self.store.dados().todos@).len(),
            r.done == concluidas_de(self.store.dados().todos@).len(),
            r.trash == self.store.dados().trash@.len(),
    {
        self.store.counts()
    }

    /// The theme in force when the theme box opened: the one the box marks
    /// as in use and `Esc` puts back.
    pub fn tema_gravado(&self) -> (r: Theme)
        ensures
            r == self.sessao@.tema_gravado,
    {
        self.sessao.tema_gravado()
    }

    /// The tasks the screen shows, in the order it shows them.
    pub fn visible(&self) -> (r: Vec<&Todo>)
        ensures
            r@.len() == vista_app(*self).len(),
            forall|i: int| 0 <= i < r@.len() ==> *(#[trigger] r@[i]) == vista_app(*self)[i],
    {
        if self.sessao.mode() == InputMode::Trash {
            return self.store.filtered(Filter::Trash);
        }
        match self.filter {
            Filter::All => {
                let mut a = self.store.view(Filter::Active, self.sort, &self.category_filter, self.query.as_str());
                let mut b = self.store.view(Filter::Done, self.sort, &self.category_filter, self.query.as_str());
                let ghost a0 = a@;
                let ghost b0 = b@;
                a.append(&mut b);
                assert forall|i: int| 0 <= i < a@.len() implies *(#[trigger] a@[i]) == vista_app(
                    *self,
                )[i] by {
                    if i < a0.len() {
                        assert(a@[i] == a0[i]);
                    } else {
                        assert(a@[i] == b0[i - a0.len()]);
                    }
                }
                a
            },
            f => self.store.view(f, self.sort, &self.category_filter, self.query.as_str()),
        }
    }

    /// The task on the selected line.
    pub fn selected(&self) -> (r: Option<&Todo>)
        ensures
            match r {
                Some(t) => selecao(*self) == Some(*t),
                None => selecao(*self) is None,
            },
    {
        let v = self.visible();
        match self.selecionada {
            Some(i) => if i < v.len() {
                Some(v[i])
            } else {
                None
            },
            None => None,
        }
    }

    fn selected_id(&self) -> (r: Option<TodoId>)
        ensures
            match r {
                Some(id) => selecao(*self) matches Some(t) && id == t.id,
                None => selecao(*self) is None,
            },
    {
        match self.selected() {
            Some(t) => Some(t.id.copia()),
            None => None,
        }
    }

    /// Brings the selection back inside the view.
    fn clamp_selection(&mut self)
        ensures
            final(self).selecionada == limitada_em(*old(self), *old(self)),
            final(self).store == old(self).store,
            final(self).sessao == old(self).sessao,
            final(self).status == old(self).status,
            final(self).filter == old(self).filter,
            final(self).query == old(self).query,
            final(self).sort == old(self).sort,
            final(self).category_filter == old(self).category_filter,
            final(self).categoria_cursor == old(self).categoria_cursor,
            final(self).renomear_categoria == old(self).renomear_categoria,
            final(self).config_path == old(self).config_path,
            final(self).armado == old(self).armado,
    {
        let n = self.visible().len();
        self.selecionada = clamp_selection(self.selecionada, n);
    }
}

/// The data, the filter, the search, the preferences file and the guard as
/// they were.
pub open spec fn mesmos_dados(a: App, b: App) -> bool {
    &&& b.store == a.store
    &&& b.filter == a.filter
    &&& b.query == a.query
    &&& b.sort == a.sort
    &&& b.category_filter == a.category_filter
    &&& b.categoria_cursor == a.categoria_cursor
    &&& b.renomear_categoria == a.renomear_categoria
    &&& b.config_path == a.config_path
    &&& b.armado == a.armado
}

/// Only the selection changed, to `sel`.
pub open spec fn so_a_selecao(a: App, b: App, sel: Option<usize>) -> bool {
    &&& mesmos_dados(a, b)
    &&& b.sessao == a.sessao
    &&& b.status == a.status
    &&& b.selecionada == sel
}

/// Only the session changed, to `v`.
pub open spec fn so_a_sessao(a: App, b: App, v: VistaSessao) -> bool {
    &&& mesmos_dados(a, b)
    &&& b.sessao@ == v
    &&& b.status == a.status
    &&& b.selecionada == a.selecionada
}

/// Only the status line changed, to the error `texto`.
pub open spec fn so_o_erro(a: App, b: App, texto: Seq<char>) -> bool {
    &&& mesmos_dados(a, b)
    &&& b.sessao == a.sessao
    &&& b.selecionada == a.selecionada
    &&& b.status matches Status::Error(t) && t@ == texto
}

/// The error of an action on the selection when no line is selected.
pub open spec fn sem_selecao_texto() -> Seq<char> {
    "Erro: não há nenhuma tarefa selecionada"@
}

/// `e`/`E`: the line opens with the title, or the description, of the
/// selected task; with nothing selected, the error says so.
pub open spec fn apos_editar(a: App, b: App, descricao: bool) -> bool {
    match selecao(a) {
        Some(t) => so_a_sessao(
            a,
            b,
            com_linha(
                a.sessao@,
                InputMode::Editing,
                if descricao {
                    t.description@
                } else {
                    t.title@
                },
                descricao,
            ),
        ),
        None => so_o_erro(a, b, sem_selecao_texto()),
    }
}

impl App {
    fn mover(&mut self, delta: isize)
        ensures
            so_a_selecao(
                *old(self),
                *final(self),
                movida_na_lista(old(self).selecionada, delta as int, vista_app(*old(self)).len() as usize),
            ),
    {
        let n = self.visible().len();
        self.selecionada = move_selection(self.selecionada, delta, n);
    }

    fn ir_para(&mut self, indice: usize)
        ensures
            so_a_selecao(
                *old(self),
                *final(self),
                na_linha(indice, vista_app(*old(self)).len() as usize),
            ),
    {
        let n = self.visible().len();
        self.selecionada = select_index(indice, n);
    }

    fn ir_para_o_fim(&mut self)
        ensures
            so_a_selecao(
                *old(self),
                *final(self),
                na_linha(
                    if vista_app(*old(self)).len() == 0 {
                        0usize
                    } else {
                        (vista_app(*old(self)).len() - 1) as usize
                    },
                    vista_app(*old(self)).len() as usize,
                ),
            ),
    {
        let n = self.visible().len();
        let ultimo = if n == 0 {
            0
        } else {
            n - 1
        };
        self.selecionada = select_index(ultimo, n);
    }

    fn editar(&mut self, descricao: bool)
        ensures
            apos_editar(*old(self), *final(self), descricao),
    {
        let texto = match self.selected() {
            Some(t) => if descricao {
                t.description.clone()
            } else {
                t.title.clone()
            },
            None => {
                self.status = Status::Error("Erro: não há nenhuma tarefa selecionada".to_owned());
                return;
            },
        };
        self.sessao.open_line(InputMode::Editing, texto.as_str(), descricao);
    }
}

// ------------------------------------------------- actions on the data

/// After an operation on the data: the session, the filter, the search, the
/// preferences file and the guard as they were, and the selection brought
/// inside the new view.
pub open spec fn depois_da_operacao(a: App, b: App) -> bool {
    &&& b.sessao == a.sessao
    &&& b.filter == a.filter
    &&& b.query == a.query
    &&& b.sort == a.sort
    &&& b.category_filter == a.category_filter
    &&& b.categoria_cursor == a.categoria_cursor
    &&& b.renomear_categoria == a.renomear_categoria
    &&& b.config_path == a.config_path
    &&& b.armado == a.armado
    &&& b.selecionada == limitada_em(a, b)
}

/// An operation failed with `e`: the data as it was, the error on the
/// status line, the selection inside the view.
pub open spec fn falhou(a: App, b: App, e: OpsError) -> bool {
    &&& depois_da_operacao(a, b)
    &&& intacta(a.store, b.store)
    &&& b.status matches Status::Error(t) && t@ == texto_de_falha(e, a.store.caminho())
}

/// `«title»` between `antes` and the closing guillemet.
pub open spec fn com_titulo(antes: Seq<char>, titulo: Seq<char>) -> Seq<char> {
    antes + titulo + "»"@
}

/// `Space`: the selected task is done, or open again.
pub open spec fn apos_alternar(a: App, b: App, r: Efeito) -> bool {
    match selecao(a) {
        None => so_o_erro(a, b, sem_selecao_texto()) && r == Efeito::Nada,
        Some(t) => {
            let todos = a.store.dados().todos@;
            if tem_id(todos, t.id@) {
                let i = primeira(todos, t.id@);
                let antes = todos[i];
                let quando = b.store.dados().todos@[i].completed_at;
                &&& depois_da_operacao(a, b)
                &&& quando is Some == !antes.done
                &&& tarefa_trocada(
                    a.store,
                    b.store,
                    i,
                    Todo { done: !antes.done, completed_at: quando, ..antes },
                )
                &&& b.status matches Status::Message { texto, .. } && texto@ == com_titulo(
                    if antes.done {
                        "Reaberta «"@
                    } else {
                        "Concluída «"@
                    },
                    antes.title@,
                )
                &&& r == Efeito::Gravar
            } else {
                falhou(a, b, OpsError::NotFound(t.id)) && r == Efeito::Nada
            }
        },
    }
}

/// `1`/`2`/`3`: the selected task gets priority `p`.
pub open spec fn apos_prioridade(a: App, b: App, p: Priority, r: Efeito) -> bool {
    match selecao(a) {
        None => so_o_erro(a, b, sem_selecao_texto()) && r == Efeito::Nada,
        Some(t) => {
            let todos = a.store.dados().todos@;
            if tem_id(todos, t.id@) {
                let i = primeira(todos, t.id@);
                &&& depois_da_operacao(a, b)
                &&& tarefa_trocada(a.store, b.store, i, Todo { priority: p, ..todos[i] })
                &&& b.status matches Status::Message { texto, .. } && texto@ == com_titulo(
                    "Prioridade "@ + rotulo(p) + " em «"@,
                    todos[i].title@,
                )
                &&& r == Efeito::Gravar
            } else {
                falhou(a, b, OpsError::NotFound(t.id)) && r == Efeito::Nada
            }
        },
    }
}

/// The warning when the trash limit pushed `n` old entries out: nothing
/// leaves in silence.
pub open spec fn aviso_de_transbordo(n: nat) -> Seq<char> {
    "Aviso: "@ + decimal(n) + " entradas antigas saíram do lixo (limite "@ + decimal(
        TRASH_LIMIT as nat,
    ) + ")  ·  L ver o lixo"@
}

/// `d`: the selected task goes to the trash. The message stays while there
/// is undo; an overflow of the trash is said instead, and stays too.
pub open spec fn apos_remover(a: App, b: App, r: Efeito) -> bool {
    match selecao(a) {
        None => so_o_erro(a, b, sem_selecao_texto()) && r == Efeito::Nada,
        Some(t) => {
            let db = a.store.dados();
            if tem_id(db.todos@, t.id@) {
                let e = b.store.dados().trash@.last();
                let saidas = saidas_do_lixo(db.trash@.push(e));
                &&& depois_da_operacao(a, b)
                &&& efeito_remove(db, t.id@, b.store.dados(), saidas)
                &&& so_dados(a.store, b.store)
                &&& b.status matches Status::Sticky(texto) && texto@ == (if saidas == 0 {
                    com_titulo("Removida «"@, db.todos@[primeira(db.todos@, t.id@)].title@)
                        + "    "@ + UNDO_HINT@
                } else {
                    aviso_de_transbordo(saidas)
                })
                &&& r == Efeito::Gravar
            } else {
                falhou(a, b, OpsError::NotFound(t.id)) && r == Efeito::Nada
            }
        },
    }
}

/// `Aviso: N entradas antigas saíram do lixo (limite 100)  ·  L ver o lixo`.
fn texto_do_transbordo(n: usize) -> (r: String)
    ensures
        r@ == aviso_de_transbordo(n as nat),
{
    let mut s = "Aviso: ".to_owned();
    s.append(em_decimal(n as u64).as_str());
    s.append(" entradas antigas saíram do lixo (limite ");
    s.append(em_decimal(TRASH_LIMIT as u64).as_str());
    s.append(")  ·  L ver o lixo");
    s
}

/// `antes«titulo»`.
fn texto_com_titulo(antes: &str, titulo: &str) -> (r: String)
    ensures
        r@ == com_titulo(antes@, titulo@),
{
    let mut s = antes.to_owned();
    s.append(titulo);
    s.append("»");
    s
}

impl App {
    /// An operation failed: the error on the status line, the selection
    /// back inside the view.
    fn falha(&mut self, err: OpsError)
        ensures
            falhou(*old(self), *final(self), err),
    {
        self.status = erro(&err, self.store.path());
        self.clamp_selection();
    }

    /// The title of the task `id`, or empty.
    fn titulo(&self, id: &TodoId) -> (r: String)
        ensures
            tem_id(self.store.dados().todos@, id@) ==> r@ == self.store.dados().todos@[primeira(
                self.store.dados().todos@,
                id@,
            )].title@,
    {
        match self.store.find(id) {
            Some(t) => t.title.clone(),
            None => String::new(),
        }
    }

    fn toggle_selected(&mut self) -> (r: Efeito)
        ensures
            apos_alternar(*old(self), *final(self), r),
    {
        let id = match self.selected_id() {
            Some(id) => id,
            None => {
                self.status = Status::Error("Erro: não há nenhuma tarefa selecionada".to_owned());
                return Efeito::Nada;
            },
        };
        let titulo = self.titulo(&id);
        match self.store.toggle_done(&id) {
            Ok(feita) => {
                let texto = if feita {
                    texto_com_titulo("Concluída «", titulo.as_str())
                } else {
                    texto_com_titulo("Reaberta «", titulo.as_str())
                };
                self.status = Status::Message { texto, desde: agora_monotono() };
                self.clamp_selection();
                Efeito::Gravar
            },
            Err(e) => {
                self.falha(e);
                Efeito::Nada
            },
        }
    }

    fn set_priority(&mut self, priority: Priority) -> (r: Efeito)
        ensures
            apos_prioridade(*old(self), *final(self), priority, r),
    {
        let id = match self.selected_id() {
            Some(id) => id,
            None => {
                self.status = Status::Error("Erro: não há nenhuma tarefa selecionada".to_owned());
                return Efeito::Nada;
            },
        };
        let titulo = self.titulo(&id);
        match self.store.set_priority(&id, priority) {
            Ok(()) => {
                let mut antes = "Prioridade ".to_owned();
                antes.append(priority.label());
                antes.append(" em «");
                let texto = texto_com_titulo(antes.as_str(), titulo.as_str());
                self.status = Status::Message { texto, desde: agora_monotono() };
                self.clamp_selection();
                Efeito::Gravar
            },
            Err(e) => {
                self.falha(e);
                Efeito::Nada
            },
        }
    }

    fn trash_selected(&mut self) -> (r: Efeito)
        requires
            crate::dominio::ops::maior_lote(old(self).store.dados().trash@) < u64::MAX,
        ensures
            apos_remover(*old(self), *final(self), r),
    {
        let id = match self.selected_id() {
            Some(id) => id,
            None => {
                self.status = Status::Error("Erro: não há nenhuma tarefa selecionada".to_owned());
                return Efeito::Nada;
            },
        };
        let titulo = self.titulo(&id);
        match self.store.remove(&id) {
            Ok(saidas) => {
                let texto = if saidas == 0 {
                    let mut t = texto_com_titulo("Removida «", titulo.as_str());
                    t.append("    ");
                    t.append(UNDO_HINT);
                    t
                } else {
                    texto_do_transbordo(saidas)
                };
                self.status = Status::Sticky(texto);
                self.clamp_selection();
                Efeito::Gravar
            },
            Err(e) => {
                self.falha(e);
                Efeito::Nada
            },
        }
    }
}

/// Nothing changed but the status line, now the message `texto`.
pub open spec fn so_a_mensagem(a: App, b: App, texto: Seq<char>) -> bool {
    &&& mesmos_dados(a, b)
    &&& b.sessao == a.sessao
    &&& b.selecionada == a.selecionada
    &&& b.status matches Status::Message { texto: t, .. } && t@ == texto
}

/// The store after clearing the completed tasks of `a`, with the outcome
/// `c`: untouched when nothing is done.
pub open spec fn limpeza(a: Store, b: Store, novos: Seq<Trashed>, c: ClearOutcome) -> bool {
    let db = a.dados();
    if indices_concluidas(db.todos@).len() == 0 {
        c == ClearOutcome { removidos: 0, saidas_do_lixo: 0 } && intacta(a, b)
    } else {
        &&& lote_de_concluidas(db.todos@, novos, maior_lote(db.trash@) + 1)
        &&& efeito_clear_completed(db, b.dados(), novos, c)
        &&& so_dados(a, b)
    }
}

/// `c`: the completed tasks go to the trash in one batch. The message says
/// how many and stays while there is undo; an overflow is said instead.
pub open spec fn apos_limpar(a: App, b: App, r: Efeito) -> bool {
    exists|novos: Seq<Trashed>, c: ClearOutcome|
        #[trigger] limpeza(a.store, b.store, novos, c) && {
            &&& r == (if indices_concluidas(a.store.dados().todos@).len() == 0 {
                Efeito::Nada
            } else {
                Efeito::Gravar
            })
            &&& if c.removidos == 0 {
                &&& b.selecionada == a.selecionada
                &&& b.status matches Status::Message { texto, .. } && texto@
                    == "Não há concluídas para limpar"@
            } else {
                &&& b.selecionada == limitada_em(a, b)
                &&& b.status matches Status::Sticky(t) && t@ == (if c.saidas_do_lixo > 0 {
                    aviso_de_transbordo(c.saidas_do_lixo as nat)
                } else {
                    decimal(c.removidos as nat) + " concluídas para o lixo  ·  u para desfazer"@
                })
            }
            &&& b.sessao == a.sessao
            &&& b.filter == a.filter
            &&& b.query == a.query
            &&& b.sort == a.sort
            &&& b.category_filter == a.category_filter
            &&& b.categoria_cursor == a.categoria_cursor
            &&& b.renomear_categoria == a.renomear_categoria
            &&& b.config_path == a.config_path
            &&& b.armado == a.armado
        }
}

proof fn lemma_conta_concluidas(s: Seq<Todo>)
    ensures
        indices_concluidas(s).len() == concluidas_de(s).len(),
    decreases s.len(),
{
    if s.len() > 0 {
        lemma_conta_concluidas(s.drop_last());
    }
}

/// Two decimal digits.
pub open spec fn dois_digitos(n: int) -> Seq<char> {
    seq![digito((n / 10) as nat), digito((n % 10) as nat)]
}

/// `HH:MM` of the instant `i` in a zone `d` seconds east of UTC.
pub open spec fn hora_e_minuto(i: Instante, d: int) -> Seq<char> {
    let t = (i.segundos + d) % 86400;
    dois_digitos(t / 3600) + ":"@ + dois_digitos((t % 3600) / 60)
}

/// The message of an undo that put back `n` tasks of the batch removed at
/// `quando` (in a zone `d` seconds east of UTC); `mais` says whether another
/// batch waits in the trash.
pub open spec fn texto_da_reposicao(n: nat, quando: Instante, d: int, mais: bool) -> Seq<char> {
    (if n == 1 {
        "Reposta "@
    } else {
        "Repostas "@
    }) + decimal(n) + " tarefas"@ + " (lote de "@ + hora_e_minuto(quando, d) + ")"@ + (if mais {
        "  ·  u repõe o lote anterior"@
    } else {
        seq![]
    })
}

/// `u`: the last batch of the trash comes back to the positions it had. The
/// message names the hour of the batch and, while another batch waits,
/// says so and stays.
pub open spec fn apos_desfazer(a: App, b: App, r: Efeito) -> bool {
    let db = a.store.dados();
    if db.trash@.len() == 0 {
        &&& intacta(a.store, b.store)
        &&& b.filter == a.filter
        &&& b.query == a.query
        &&& b.sort == a.sort
        &&& b.category_filter == a.category_filter
        &&& b.categoria_cursor == a.categoria_cursor
        &&& b.renomear_categoria == a.renomear_categoria
        &&& b.config_path == a.config_path
        &&& b.armado == a.armado
        &&& b.sessao == a.sessao
        &&& b.selecionada == a.selecionada
        &&& b.status matches Status::Message { texto, .. } && texto@ == "Lixo vazio  ·  nada para repor"@
        &&& r == Efeito::Nada
    } else {
        exists|n: nat, d: int|
            #![trigger efeito_restore_last_batch(db, b.store.dados(), n), hora_e_minuto(db.trash@.last().deleted_at, d)]
            {
                let mais = b.store.dados().trash@.len() > 0;
                let texto = texto_da_reposicao(n, db.trash@.last().deleted_at, d, mais);
                &&& efeito_restore_last_batch(db, b.store.dados(), n)
                &&& so_dados(a.store, b.store)
                &&& -86_400 < d < 86_400
                &&& depois_da_operacao(a, b)
                &&& mais ==> (b.status matches Status::Sticky(t) && t@ == texto)
                &&& !mais ==> (b.status matches Status::Message { texto: t, .. } && t@ == texto)
                &&& r == Efeito::Gravar
            }
    }
}

/// `Enter` in the trash view: the selected entry comes back to the position
/// it had.
pub open spec fn apos_repor(a: App, b: App, r: Efeito) -> bool {
    let tr = a.store.dados().trash@;
    match a.selecionada {
        Some(i) if (i as int) < tr.len() => {
            let e = tr[tr.len() - 1 - i];
            &&& no_lixo(tr, e.todo.id@)
            &&& exists|p: nat|
                #[trigger] efeito_restore(a.store.dados(), e.todo.id@, b.store.dados(), p) && {
                    &&& so_dados(a.store, b.store)
                    &&& b.status matches Status::Message { texto, .. } && texto@ == com_titulo(
                        "Restaurada «"@,
                        e.todo.title@,
                    ) + " para a posição "@ + decimal(p + 1) + " da lista"@
                }
            &&& depois_da_operacao(a, b)
            &&& r == Efeito::Gravar
        },
        _ => so_a_mensagem(a, b, "Lixo vazio  ·  nada para repor"@) && r == Efeito::Nada,
    }
}

/// `HH:MM` of `quando` in the machine's time zone at that instant (in its
/// own offset when the time zone cannot place it).
fn hora_do_lote(quando: &Instante) -> (r: String)
    ensures
        exists|d: int| -86_400 < d < 86_400 && r@ == #[trigger] hora_e_minuto(*quando, d),
{
    let d: i32 = match desvio_local(quando.segundos, quando.nanos) {
        Some(d) => d,
        None => if -86_400 < quando.desvio && quando.desvio < 86_400 {
            quando.desvio
        } else {
            0
        },
    };
    let mut t: i128 = (quando.segundos as i128 + d as i128) % 86400;
    if t < 0 {
        t = t + 86400;
    }
    assert(t == (quando.segundos + d) % 86400);
    let h = t / 3600;
    let m = (t % 3600) / 60;
    let mut s = String::new();
    empurrar(&mut s, caracter_de((48 + h / 10) as u32).unwrap());
    empurrar(&mut s, caracter_de((48 + h % 10) as u32).unwrap());
    empurrar(&mut s, ':');
    empurrar(&mut s, caracter_de((48 + m / 10) as u32).unwrap());
    empurrar(&mut s, caracter_de((48 + m % 10) as u32).unwrap());
    proof {
        reveal_strlit(":");
    }
    assert(s@ =~= hora_e_minuto(*quando, d as int));
    s
}

impl App {
    fn clear_completed(&mut self) -> (r: Efeito)
        requires
            maior_lote(old(self).store.dados().trash@) < u64::MAX,
        ensures
            apos_limpar(*old(self), *final(self), r),
    {
        let ghost a = self.store;
        proof {
            lemma_conta_concluidas(a.dados().todos@);
        }
        let havia = self.store.counts().done > 0;
        match self.store.clear_completed() {
            Ok(c) => {
                proof {
                    if indices_concluidas(a.dados().todos@).len() > 0 {
                        let novos = choose|novos: Seq<Trashed>|
                            #[trigger] lote_de_concluidas(a.dados().todos@, novos, maior_lote(a.dados().trash@) + 1)
                                && efeito_clear_completed(a.dados(), self.store.dados(), novos, c);
                        assert(limpeza(a, self.store, novos, c));
                    } else {
                        assert(limpeza(a, self.store, seq![], c));
                    }
                }
                if c.removidos == 0 {
                    self.status = Status::Message {
                        texto: "Não há concluídas para limpar".to_owned(),
                        desde: agora_monotono(),
                    };
                } else {
                    let texto = if c.saidas_do_lixo > 0 {
                        texto_do_transbordo(c.saidas_do_lixo)
                    } else {
                        let mut t = em_decimal(c.removidos as u64);
                        t.append(" concluídas para o lixo  ·  u para desfazer");
                        t
                    };
                    self.status = Status::Sticky(texto);
                    self.clamp_selection();
                }
                if havia {
                    Efeito::Gravar
                } else {
                    Efeito::Nada
                }
            },
            Err(e) => {
                self.falha(e);
                Efeito::Nada
            },
        }
    }
}

/// `Instant::now() < fim`: whether a guard armed until `fim` is still in
/// time. Nothing is stated of the result: it rests on the clock.
#[verifier::external_body]
fn ainda_a_tempo(fim: &std::time::Instant) -> (r: bool) {
    std::time::Instant::now() < *fim
}

/// `Instant::now()` plus [`ARM_WINDOW_SECS`]: until when a guard armed now
/// holds. Nothing is stated of the value: it rests on the clock.
#[verifier::external_body]
fn fim_da_janela() -> (r: std::time::Instant) {
    std::time::Instant::now() + std::time::Duration::from_secs(ARM_WINDOW_SECS)
}

/// The trash emptied: the entries are gone for good, the guard disarmed.
pub open spec fn esvaziou(a: App, b: App, r: Efeito) -> bool {
    let antes = a.store.dados();
    let depois = b.store.dados();
    &&& depois.trash@.len() == 0
    &&& depois.todos == antes.todos
    &&& depois.trash_dropped == antes.trash_dropped
    &&& depois.categories == antes.categories
    &&& depois.schema == antes.schema
    &&& so_dados(a.store, b.store)
    &&& b.armado is None
    &&& b.sessao == a.sessao
    &&& b.filter == a.filter
    &&& b.query == a.query
    &&& b.sort == a.sort
    &&& b.category_filter == a.category_filter
    &&& b.categoria_cursor == a.categoria_cursor
    &&& b.renomear_categoria == a.renomear_categoria
    &&& b.config_path == a.config_path
    &&& b.selecionada == limitada_em(a, b)
    &&& b.status matches Status::Message { texto, .. } && texto@ == "Lixo esvaziado ("@ + decimal(
        antes.trash@.len(),
    ) + " entradas)"@
    &&& r == Efeito::Gravar
}

/// The guard armed: the data untouched, the question on the status line.
pub open spec fn armou(a: App, b: App, r: Efeito) -> bool {
    &&& b.store == a.store
    &&& b.armado matches Some((Guarda::EsvaziarLixo, _))
    &&& b.sessao == a.sessao
    &&& b.filter == a.filter
    &&& b.query == a.query
    &&& b.sort == a.sort
    &&& b.category_filter == a.category_filter
    &&& b.categoria_cursor == a.categoria_cursor
    &&& b.renomear_categoria == a.renomear_categoria
    &&& b.config_path == a.config_path
    &&& b.selecionada == a.selecionada
    &&& b.status matches Status::Message { texto, .. } && texto@ == "Esvaziar o lixo? "@ + decimal(
        a.store.dados().trash@.len(),
    ) + " entradas, sem volta atrás  ·  c outra vez confirma"@
    &&& r == Efeito::Nada
}

/// `c` in the trash view: the first press arms the guard, a second one in
/// time empties the trash. It is the one operation without undo.
pub open spec fn apos_esvaziar(a: App, b: App, r: Efeito) -> bool {
    if a.store.dados().trash@.len() == 0 {
        so_a_mensagem(a, b, "Lixo vazio  ·  nada para esvaziar"@) && r == Efeito::Nada
    } else if a.armado matches Some((Guarda::EsvaziarLixo, _)) {
        esvaziou(a, b, r) || armou(a, b, r)
    } else {
        armou(a, b, r)
    }
}

/// `L`: the trash view opens, or closes; the selection comes inside the new
/// view.
pub open spec fn apos_vista_do_lixo(a: App, b: App) -> bool {
    &&& b.store == a.store
    &&& b.status == a.status
    &&& b.filter == a.filter
    &&& b.query == a.query
    &&& b.sort == a.sort
    &&& b.category_filter == a.category_filter
    &&& b.categoria_cursor == a.categoria_cursor
    &&& b.renomear_categoria == a.renomear_categoria
    &&& b.config_path == a.config_path
    &&& b.armado == a.armado
    &&& b.sessao@ == (VistaSessao {
        mode: if a.sessao@.mode == InputMode::Trash {
            InputMode::Normal
        } else {
            InputMode::Trash
        },
        ..a.sessao@
    })
    &&& b.selecionada == limitada_em(a, b)
}

/// `Esc` at rest: first the message goes; with no message, the search and
/// the filter are cleared. It never quits.
pub open spec fn apos_dispensar(a: App, b: App) -> bool {
    &&& b.store == a.store
    &&& b.sessao == a.sessao
    &&& b.config_path == a.config_path
    &&& b.armado == a.armado
    &&& b.status is Idle
    &&& if a.status is Idle {
        &&& b.query@.len() == 0
        &&& b.sort == a.sort
        &&& b.category_filter == CategoryFilter::Todas
        &&& b.categoria_cursor == a.categoria_cursor
        &&& b.renomear_categoria == a.renomear_categoria
        &&& b.filter == Filter::All
        &&& b.selecionada == limitada_em(a, b)
    } else {
        &&& b.query == a.query
        &&& b.sort == a.sort
        &&& b.category_filter == a.category_filter
        &&& b.categoria_cursor == a.categoria_cursor
        &&& b.renomear_categoria == a.renomear_categoria
        &&& b.filter == a.filter
        &&& b.selecionada == a.selecionada
    }
}

/// `Esc` outside a line of text: the help and the category box go back to
/// the view they came from, the trash to the list; the selection comes
/// inside the view it lands on.
pub open spec fn apos_cancelar(a: App, b: App) -> bool {
    &&& mesmos_dados(a, b)
    &&& b.sessao@ == cancelada(a.sessao@)
    &&& b.status == a.status
    &&& b.selecionada == limitada_em(a, b)
}

/// `s`: the next order of the cycle, the selection inside the view.
pub open spec fn apos_ordem(a: App, b: App) -> bool {
    &&& b.store == a.store
    &&& b.sessao == a.sessao
    &&& b.status == a.status
    &&& b.query == a.query
    &&& b.filter == a.filter
    &&& b.config_path == a.config_path
    &&& b.armado == a.armado
    &&& b.sort == ordem_seguinte(a.sort)
    &&& b.selecionada == limitada_em(a, b)
}

/// `f`: the next filter of the cycle, the selection inside its view.
pub open spec fn apos_filtro(a: App, b: App) -> bool {
    &&& b.store == a.store
    &&& b.sessao == a.sessao
    &&& b.status == a.status
    &&& b.query == a.query
    &&& b.sort == a.sort
    &&& b.category_filter == a.category_filter
    &&& b.categoria_cursor == a.categoria_cursor
    &&& b.renomear_categoria == a.renomear_categoria
    &&& b.config_path == a.config_path
    &&& b.armado == a.armado
    &&& b.filter == filtro_seguinte(a.filter)
    &&& b.selecionada == limitada_em(a, b)
}

impl App {
    fn restore_last_batch(&mut self) -> (r: Efeito)
        ensures
            apos_desfazer(*old(self), *final(self), r),
    {
        let n_lixo = self.store.trash_len();
        let quando: Option<Instante> = if n_lixo > 0 {
            Some(self.store.db().trash[n_lixo - 1].deleted_at)
        } else {
            None
        };
        match self.store.restore_last_batch() {
            Ok(n) => {
                let mut texto = if n == 1 {
                    "Reposta ".to_owned()
                } else {
                    "Repostas ".to_owned()
                };
                texto.append(em_decimal(n as u64).as_str());
                texto.append(" tarefas");
                if let Some(fim) = quando {
                    texto.append(" (lote de ");
                    let hora = hora_do_lote(&fim);
                    texto.append(hora.as_str());
                    texto.append(")");
                }
                let mais = self.store.can_restore();
                if mais {
                    texto.append("  ·  u repõe o lote anterior");
                }
                self.status = if mais {
                    Status::Sticky(texto)
                } else {
                    Status::Message { texto, desde: agora_monotono() }
                };
                self.clamp_selection();
                Efeito::Gravar
            },
            Err(OpsError::NothingToRestore) => {
                self.status = Status::Message {
                    texto: "Lixo vazio  ·  nada para repor".to_owned(),
                    desde: agora_monotono(),
                };
                Efeito::Nada
            },
            Err(e) => {
                self.falha(e);
                Efeito::Nada
            },
        }
    }
}

impl App {
    fn restore_selected(&mut self) -> (r: Efeito)
        ensures
            apos_repor(*old(self), *final(self), r),
    {
        let alvo: Option<(TodoId, String)> = match self.selecionada {
            Some(i) => {
                let tr = &self.store.db().trash;
                if i < tr.len() {
                    let e = &tr[tr.len() - 1 - i];
                    Some((e.todo.id.copia(), e.todo.title.clone()))
                } else {
                    None
                }
            },
            None => None,
        };
        let (id, titulo) = match alvo {
            Some(x) => x,
            None => {
                self.status = Status::Message {
                    texto: "Lixo vazio  ·  nada para repor".to_owned(),
                    desde: agora_monotono(),
                };
                return Efeito::Nada;
            },
        };
        proof {
            let tr = self.store.dados().trash@;
            let i = self.selecionada->0;
            assert(crate::dominio::ops::e_primeira_no_lixo(tr, id@, tr.len() - 1 - i) || no_lixo(tr, id@));
        }
        match self.store.restore(&id) {
            Ok(p) => {
                let n = self.store.todos().len();
                let mut texto = texto_com_titulo("Restaurada «", titulo.as_str());
                texto.append(" para a posição ");
                texto.append(em_decimal((p + 1) as u64).as_str());
                texto.append(" da lista");
                self.status = Status::Message { texto, desde: agora_monotono() };
            },
            Err(e) => {
                self.falha(e);
            },
        }
        self.clamp_selection();
        Efeito::Gravar
    }

    fn empty_trash(&mut self) -> (r: Efeito)
        ensures
            esvaziou(*old(self), *final(self), r),
    {
        let entradas = self.store.trash_len();
        match self.store.empty_trash() {
            Ok(_) => {
                let mut texto = "Lixo esvaziado (".to_owned();
                texto.append(em_decimal(entradas as u64).as_str());
                texto.append(" entradas)");
                self.status = Status::Message { texto, desde: agora_monotono() };
            },
            Err(e) => {
                self.falha(e);
            },
        }
        self.armado = None;
        self.clamp_selection();
        Efeito::Gravar
    }

    fn confirm_or_empty_trash(&mut self) -> (r: Efeito)
        ensures
            apos_esvaziar(*old(self), *final(self), r),
    {
        let total = self.store.trash_len();
        if total == 0 {
            self.status = Status::Message {
                texto: "Lixo vazio  ·  nada para esvaziar".to_owned(),
                desde: agora_monotono(),
            };
            return Efeito::Nada;
        }
        let armada = match &self.armado {
            Some((Guarda::EsvaziarLixo, fim)) => ainda_a_tempo(fim),
            _ => false,
        };
        if armada {
            self.empty_trash()
        } else {
            self.armado = Some((Guarda::EsvaziarLixo, fim_da_janela()));
            let mut texto = "Esvaziar o lixo? ".to_owned();
            texto.append(em_decimal(total as u64).as_str());
            texto.append(" entradas, sem volta atrás  ·  c outra vez confirma");
            self.status = Status::Message { texto, desde: agora_monotono() };
            Efeito::Nada
        }
    }

    fn toggle_trash_view(&mut self)
        ensures
            apos_vista_do_lixo(*old(self), *final(self)),
    {
        self.sessao.alternar_lixo();
        self.clamp_selection();
    }

    fn dismiss(&mut self)
        ensures
            apos_dispensar(*old(self), *final(self)),
    {
        match self.status {
            Status::Idle => {
                self.query = String::new();
                self.filter = Filter::All;
                self.category_filter = CategoryFilter::Todas;
                self.clamp_selection();
            },
            _ => {
                self.status = Status::Idle;
            },
        }
    }

    fn cycle_filter(&mut self)
        ensures
            apos_filtro(*old(self), *final(self)),
    {
        self.filter = next_filter(self.filter);
        self.clamp_selection();
    }
}

/// The tasks after each was set to `done`: the first task of each
/// identifier takes the state (and, when it changes, a completion instant
/// that exists exactly when it becomes done); every other stays.
pub open spec fn todas_marcadas(antes: Seq<Todo>, depois: Seq<Todo>, done: bool) -> bool {
    &&& depois.len() == antes.len()
    &&& forall|k: int|
        0 <= k < antes.len() ==> if primeira(antes, antes[k].id@) == k && antes[k].done != done {
            &&& (#[trigger] depois[k]).completed_at is Some == done
            &&& depois[k] == Todo { done, completed_at: depois[k].completed_at, ..antes[k] }
        } else {
            depois[k] == antes[k]
        }
}

/// `t`: every task is done, or, when all already are, every one is open
/// again.
pub open spec fn apos_alternar_todas(a: App, b: App, r: Efeito) -> bool {
    let todos = a.store.dados().todos@;
    if todos.len() == 0 {
        so_a_mensagem(a, b, "Sem tarefas para alternar"@) && r == Efeito::Nada
    } else {
        let concluir = exists|k: int| 0 <= k < todos.len() && !(#[trigger] todos[k]).done;
        &&& todas_marcadas(todos, b.store.dados().todos@, concluir)
        &&& resto_igual(a.store.dados(), b.store.dados())
        &&& so_dados(a.store, b.store)
        &&& depois_da_operacao(a, b)
        &&& b.status matches Status::Message { texto, .. } && texto@ == decimal(todos.len()) + (
        if concluir {
            " tarefas concluídas"@
        } else {
            " tarefas reabertas"@
        })
        &&& r == Efeito::Gravar
    }
}

proof fn lemma_mesma_primeira(s: Seq<Todo>, t: Seq<Todo>, id: Seq<char>)
    requires
        tem_id(s, id),
        s.len() == t.len(),
        forall|k: int| 0 <= k < s.len() ==> (#[trigger] t[k]).id@ == s[k].id@,
    ensures
        tem_id(t, id),
        primeira(t, id) == primeira(s, id),
{
    lemma_tem_primeira(s, id);
    let p = primeira(s, id);
    assert(e_primeira(t, id, p)) by {
        assert forall|k: int| 0 <= k < p implies (#[trigger] t[k]).id@ != id by {
            assert(s[k].id@ != id);
        }
    }
    lemma_primeira(t, id, p);
}

impl App {
    fn toggle_all(&mut self) -> (r: Efeito)
        ensures
            apos_alternar_todas(*old(self), *final(self), r),
    {
        let n = self.store.todos().len();
        if n == 0 {
            self.status = Status::Message {
                texto: "Sem tarefas para alternar".to_owned(),
                desde: agora_monotono(),
            };
            return Efeito::Nada;
        }
        let ghost a = self.store;
        let ghost t0 = a.dados().todos@;
        let ghost app0 = *self;
        let mut concluir = false;
        let mut ids: Vec<TodoId> = Vec::new();
        let mut i: usize = 0;
        while i < n
            invariant
                0 <= i <= n,
                n == t0.len(),
                self.store == a,
                t0 == self.store.dados().todos@,
                ids@.len() == i,
                forall|k: int| 0 <= k < i ==> (#[trigger] ids@[k]) == t0[k].id,
                concluir == exists|k: int| 0 <= k < i && !(#[trigger] t0[k]).done,
                self.sessao == app0.sessao,
                self.status == app0.status,
                self.filter == app0.filter,
                self.query == app0.query,
                self.sort == app0.sort,
                self.category_filter == app0.category_filter,
                self.categoria_cursor == app0.categoria_cursor,
                self.renomear_categoria == app0.renomear_categoria,
                self.config_path == app0.config_path,
                self.armado == app0.armado,
                self.selecionada == app0.selecionada,
            decreases n - i,
        {
            let t = &self.store.todos()[i];
            if !t.done {
                concluir = true;
            }
            ids.push(t.id.copia());
            i = i + 1;
        }
        let mut i: usize = 0;
        while i < n
            invariant
                0 <= i <= n,
                n == t0.len(),
                ids@.len() == n,
                forall|k: int| 0 <= k < n ==> (#[trigger] ids@[k]) == t0[k].id,
                self.store.dados().todos@.len() == n,
                forall|k: int| 0 <= k < n ==> (#[trigger] self.store.dados().todos@[k]).id == t0[k].id,
                forall|k: int|
                    i <= k < n ==> (#[trigger] self.store.dados().todos@[k]) == t0[k],
                forall|k: int|
                    0 <= k < i ==> if primeira(t0, t0[k].id@) == k && t0[k].done != concluir {
                        &&& (#[trigger] self.store.dados().todos@[k]).completed_at is Some
                            == concluir
                        &&& self.store.dados().todos@[k] == Todo {
                            done: concluir,
                            completed_at: self.store.dados().todos@[k].completed_at,
                            ..t0[k]
                        }
                    } else {
                        self.store.dados().todos@[k] == t0[k]
                    },
                forall|k: int|
                    0 <= k < i && primeira(t0, t0[k].id@) == k ==> (
                    #[trigger] self.store.dados().todos@[k]).done == concluir,
                resto_igual(a.dados(), self.store.dados()),
                so_dados(a, self.store),
                self.sessao == app0.sessao,
                self.status == app0.status,
                self.filter == app0.filter,
                self.query == app0.query,
                self.sort == app0.sort,
                self.category_filter == app0.category_filter,
                self.categoria_cursor == app0.categoria_cursor,
                self.renomear_categoria == app0.renomear_categoria,
                self.config_path == app0.config_path,
                self.armado == app0.armado,
                self.selecionada == app0.selecionada,
            decreases n - i,
        {
            let ghost cur = self.store.dados().todos@;
            let ghost id = t0[i as int].id@;
            proof {
                assert(tem_id(t0, id)) by {
                    assert(t0[i as int].id@ == id);
                }
                lemma_mesma_primeira(t0, cur, id);
                lemma_tem_primeira(t0, id);
            }
            let ghost p = primeira(t0, id);
            match self.store.set_done(&ids[i], concluir) {
                Ok(_) => {},
                Err(e) => {
                    proof {
                        assert(false);
                    }
                },
            }
            proof {
                let nov = self.store.dados().todos@;
                assert(p <= i);
                assert forall|k: int| 0 <= k < n implies (#[trigger] nov[k]).id == t0[k].id by {
                    if k == p {
                        assert(nov[k].id == cur[k].id);
                    } else {
                        assert(nov[k] == cur[k]);
                    }
                }
                assert forall|k: int| 0 <= k < n && k != p implies #[trigger] nov[k] == cur[k] by {}
                if p < i {
                    assert(cur[p].done == concluir);
                    assert(nov[p] == cur[p]);
                }
                assert forall|k: int|
                    0 <= k < i + 1 && primeira(t0, t0[k].id@) == k implies (
                    #[trigger] nov[k]).done == concluir by {
                    if k != p {
                        assert(nov[k] == cur[k]);
                    }
                }
                assert forall|k: int| 0 <= k < i + 1 implies if primeira(t0, t0[k].id@) == k
                    && t0[k].done != concluir {
                    &&& (#[trigger] nov[k]).completed_at is Some == concluir
                    &&& nov[k] == Todo { done: concluir, completed_at: nov[k].completed_at, ..t0[k] }
                } else {
                    nov[k] == t0[k]
                } by {
                    if k == p && p == i {
                    } else if k == p {
                    } else {
                        assert(nov[k] == cur[k]);
                        if k != i {
                        } else {
                            assert(primeira(t0, t0[k].id@) == p);
                        }
                    }
                }
            }
            i = i + 1;
        }
        let mut texto = em_decimal(n as u64);
        if concluir {
            texto.append(" tarefas concluídas");
        } else {
            texto.append(" tarefas reabertas");
        }
        self.status = Status::Message { texto, desde: agora_monotono() };
        self.clamp_selection();
        Efeito::Gravar
    }
}

// ------------------------------------------------------ the line confirmed

/// The first line of the view `v` holding the task `id`, if any.
pub open spec fn linha_de(v: Seq<Todo>, id: Seq<char>) -> Option<usize> {
    if tem_id(v, id) {
        Some(primeira(v, id) as usize)
    } else {
        None
    }
}

/// The store after `add(titulo)` went through: one task more at the end,
/// with the trimmed title and everything else new.
pub open spec fn adicionada(antes: Store, depois: Store, titulo: Seq<char>) -> bool {
    let todos = depois.dados().todos@;
    let t = todos.last();
    &&& todos.len() == antes.dados().todos@.len() + 1
    &&& todos.drop_last() == antes.dados().todos@
    &&& t.title@ == aparado(titulo)
    &&& t.description@.len() == 0
    &&& !t.done
    &&& t.priority == Priority::Medium
    &&& t.completed_at is None
    &&& t.due_at is None
    &&& t.category_id is None
    &&& resto_igual(antes.dados(), depois.dados())
    &&& depois.caminho() == antes.caminho()
    &&& depois.recuperadas() == antes.recuperadas()
}

/// `Enter` on a line of text.
///
/// - A new task: an empty title is refused and the line stays; otherwise
///   the task is added, the line closes and the selection follows the new
///   task (when the view shows it).
/// - An edit: the title (refused when empty) or the description of the
///   selected task; the line closes once it went through and stays on an
///   error. With nothing selected, the line just closes.
/// - A search: the trimmed text is the search; the message counts the lines
///   of the view.
/// - Import and export: the line closes and the trimmed path, when there is
///   one, goes out to be read or written.
pub open spec fn apos_confirmar(a: App, b: App, r: Efeito) -> bool {
    let texto = a.sessao@.linha;
    let limpo = aparado(texto);
    let fechada = sem_linha(a.sessao@);
    match a.sessao@.mode {
        InputMode::Adding => if limpo.len() == 0 {
            so_o_erro(a, b, "Erro: o título não pode estar vazio"@) && r == Efeito::Nada
        } else {
            &&& adicionada(a.store, b.store, texto)
            &&& b.sessao@ == fechada
            &&& b.filter == a.filter
            &&& b.query == a.query
            &&& b.sort == a.sort
            &&& b.category_filter == a.category_filter
            &&& b.categoria_cursor == a.categoria_cursor
            &&& b.renomear_categoria == a.renomear_categoria
            &&& b.config_path == a.config_path
            &&& b.armado == a.armado
            &&& b.selecionada == match linha_de(vista_app(b), b.store.dados().todos@.last().id@) {
                Some(k) => Some(k),
                None => limitada_em(a, b),
            }
            &&& b.status matches Status::Message { texto: t, .. } && t@ == com_titulo(
                "Adicionada «"@,
                limpo,
            )
            &&& r == Efeito::Gravar
        },
        InputMode::Editing => match selecao(a) {
            None => so_a_sessao(a, b, fechada) && r == Efeito::Nada,
            Some(t) => {
                let todos = a.store.dados().todos@;
                let vazio = !a.sessao@.descricao && limpo.len() == 0;
                if vazio {
                    so_o_erro(a, b, "Erro: o título não pode estar vazio"@) && r == Efeito::Nada
                } else if !tem_id(todos, t.id@) {
                    falhou(a, b, OpsError::NotFound(t.id)) && r == Efeito::Nada
                } else {
                    let k = primeira(todos, t.id@);
                    let novo = b.store.dados().todos@[k];
                    &&& (if a.sessao@.descricao {
                        novo.description@ == texto && tarefa_trocada(
                            a.store,
                            b.store,
                            k,
                            Todo { description: novo.description, ..todos[k] },
                        )
                    } else {
                        novo.title@ == limpo && tarefa_trocada(
                            a.store,
                            b.store,
                            k,
                            Todo { title: novo.title, ..todos[k] },
                        )
                    })
                    &&& b.sessao@ == fechada
                    &&& b.filter == a.filter
                    &&& b.query == a.query
                    &&& b.sort == a.sort
                    &&& b.category_filter == a.category_filter
                    &&& b.categoria_cursor == a.categoria_cursor
                    &&& b.renomear_categoria == a.renomear_categoria
                    &&& b.config_path == a.config_path
                    &&& b.armado == a.armado
                    &&& b.selecionada == a.selecionada
                    &&& b.status matches Status::Message { texto: m, .. } && m@ == "Tarefa editada"@
                    &&& r == Efeito::Gravar
                }
            },
        },
        InputMode::Search => {
            &&& b.store == a.store
            &&& b.sessao@ == fechada
            &&& b.query@ == limpo
            &&& b.sort == a.sort
            &&& b.category_filter == a.category_filter
            &&& b.categoria_cursor == a.categoria_cursor
            &&& b.renomear_categoria == a.renomear_categoria
            &&& b.filter == a.filter
            &&& b.config_path == a.config_path
            &&& b.armado == a.armado
            &&& b.selecionada == limitada_em(a, b)
            &&& (limpo.len() == 0 ==> b.status is Idle)
            &&& (limpo.len() > 0 ==> (b.status matches Status::Message { texto: m, .. } && m@
                == decimal(vista_app(b).len()) + " resultados"@))
            &&& r == Efeito::Nada
        },
        InputMode::Import => so_a_sessao(a, b, fechada) && (if limpo.len() == 0 {
            r == Efeito::Nada
        } else {
            r matches Efeito::Importar(c) && c@ == limpo
        }),
        InputMode::Export => so_a_sessao(a, b, fechada) && (if limpo.len() == 0 {
            r == Efeito::Nada
        } else {
            r matches Efeito::Exportar(c) && c@ == limpo
        }),
        InputMode::CategoryName => apos_confirmar_nome(a, b, r),
        _ => so_a_sessao(a, b, fechada) && r == Efeito::Nada,
    }
}

impl App {
    /// The selection follows the task `id` when the view shows it, and is
    /// brought inside the view otherwise.
    fn select_todo(&mut self, id: &TodoId)
        ensures
            so_a_selecao(
                *old(self),
                *final(self),
                match linha_de(vista_app(*old(self)), id@) {
                    Some(k) => Some(k),
                    None => limitada_em(*old(self), *old(self)),
                },
            ),
    {
        let achada: Option<usize> = {
            let v = self.visible();
            let mut k: usize = 0;
            let mut achada: Option<usize> = None;
            while k < v.len() && achada.is_none()
                invariant
                    0 <= k <= v@.len(),
                    v@.len() == vista_app(*self).len(),
                    forall|q: int| 0 <= q < v@.len() ==> *(#[trigger] v@[q]) == vista_app(*self)[q],
                    achada is None ==> forall|q: int|
                        0 <= q < k ==> (#[trigger] vista_app(*self)[q]).id@ != id@,
                    achada matches Some(a) ==> linha_de(vista_app(*self), id@) == Some(a),
                decreases v@.len() - k,
            {
                if v[k].id.igual(id) {
                    proof {
                        let w = vista_app(*self);
                        assert(w[k as int].id@ == id@);
                        assert(e_primeira(w, id@, k as int));
                        lemma_primeira(w, id@, k as int);
                    }
                    achada = Some(k);
                }
                k = k + 1;
            }
            proof {
                let w = vista_app(*self);
                if achada is None {
                    assert(!tem_id(w, id@)) by {
                        if tem_id(w, id@) {
                            let q = choose|q: int| 0 <= q < w.len() && (#[trigger] w[q]).id@ == id@;
                            assert(w[q].id@ != id@);
                        }
                    }
                }
            }
            achada
        };
        match achada {
            Some(k) => {
                self.selecionada = Some(k);
            },
            None => {
                self.clamp_selection();
            },
        }
    }

    fn confirm_line(&mut self) -> (r: Efeito)
        ensures
            apos_confirmar(*old(self), *final(self), r),
    {
        let texto = self.sessao.input();
        let limpo = aparar(texto.as_str());
        match self.sessao.mode() {
            InputMode::Adding => {
                if limpo.as_str().is_empty() {
                    self.status = Status::Error("Erro: o título não pode estar vazio".to_owned());
                    return Efeito::Nada;
                }
                match self.store.add(texto.as_str()) {
                    Ok(id) => {
                        self.sessao.close_line();
                        self.select_todo(&id);
                        let m = texto_com_titulo("Adicionada «", limpo.as_str());
                        self.status = Status::Message { texto: m, desde: agora_monotono() };
                        Efeito::Gravar
                    },
                    Err(e) => {
                        self.falha(e);
                        Efeito::Nada
                    },
                }
            },
            InputMode::Editing => {
                let id = match self.selected_id() {
                    Some(id) => id,
                    None => {
                        self.sessao.close_line();
                        return Efeito::Nada;
                    },
                };
                if !self.sessao.editing_description() && limpo.as_str().is_empty() {
                    self.status = Status::Error("Erro: o título não pode estar vazio".to_owned());
                    return Efeito::Nada;
                }
                let resultado = if self.sessao.editing_description() {
                    self.store.edit_description(&id, texto.as_str())
                } else {
                    self.store.edit_title(&id, texto.as_str())
                };
                match resultado {
                    Ok(()) => {
                        self.sessao.close_line();
                        self.status = Status::Message {
                            texto: "Tarefa editada".to_owned(),
                            desde: agora_monotono(),
                        };
                        Efeito::Gravar
                    },
                    Err(e) => {
                        self.falha(e);
                        Efeito::Nada
                    },
                }
            },
            InputMode::Search => {
                self.query = limpo;
                self.sessao.close_line();
                self.clamp_selection();
                if self.query.as_str().is_empty() {
                    self.status = Status::Idle;
                } else {
                    let n = self.visible().len();
                    let mut m = em_decimal(n as u64);
                    m.append(" resultados");
                    self.status = Status::Message { texto: m, desde: agora_monotono() };
                }
                Efeito::Nada
            },
            InputMode::Import => {
                self.sessao.close_line();
                if limpo.as_str().is_empty() {
                    Efeito::Nada
                } else {
                    Efeito::Importar(limpo)
                }
            },
            InputMode::Export => {
                self.sessao.close_line();
                if limpo.as_str().is_empty() {
                    Efeito::Nada
                } else {
                    Efeito::Exportar(limpo)
                }
            },
            InputMode::CategoryName => self.confirmar_nome(),
            _ => {
                self.sessao.close_line();
                Efeito::Nada
            },
        }
    }
}

// ------------------------------------------------------- the category box

/// The category on the line `cursor` of the box: line 0 is «no category»,
/// then the categories in the order they were created.
pub open spec fn na_caixa(cats: Seq<Category>, cursor: usize) -> Option<Category> {
    if 1 <= cursor && cursor - 1 < cats.len() {
        Some(cats[cursor - 1])
    } else {
        None
    }
}

/// The category under the cursor of the box of `a`.
pub open spec fn no_cursor(a: App) -> Option<Category> {
    na_caixa(a.store.dados().categories@, a.categoria_cursor)
}

/// The identifier of an optional category, as a plain value.
pub open spec fn id_de(c: Option<Category>) -> Option<Seq<char>> {
    match c {
        Some(c) => Some(c.id@),
        None => None,
    }
}

/// The cursor of the box brought back onto its lines: «no category» and
/// `n` categories.
pub open spec fn cursor_na_caixa(cursor: usize, n: nat) -> usize {
    if cursor > n {
        n as usize
    } else {
        cursor
    }
}

/// Only the session (to `v`), the cursor of the box (to `c`) and what the
/// line of the name does (`renomear`) changed.
pub open spec fn so_a_caixa(a: App, b: App, v: VistaSessao, c: usize, renomear: bool) -> bool {
    &&& b.store == a.store
    &&& b.sessao@ == v
    &&& b.status == a.status
    &&& b.filter == a.filter
    &&& b.query == a.query
    &&& b.sort == a.sort
    &&& b.category_filter == a.category_filter
    &&& b.config_path == a.config_path
    &&& b.armado == a.armado
    &&& b.selecionada == a.selecionada
    &&& b.categoria_cursor == c
    &&& b.renomear_categoria == renomear
}

/// `C` on the list: the box opens over it, on «no category». It opens
/// with no task too: it is how categories are made on an empty list.
pub open spec fn apos_abrir_caixa(a: App, b: App) -> bool {
    if a.sessao@.mode != InputMode::Normal {
        b == a
    } else {
        so_a_caixa(a, b, com_caixa_de_categorias(a.sessao@), 0, a.renomear_categoria)
    }
}

/// Up and down in the box: the cursor moves and stops at the first and the
/// last line.
pub open spec fn apos_mover_na_caixa(a: App, b: App, delta: int) -> bool {
    if a.sessao@.mode != InputMode::Category {
        b == a
    } else {
        so_a_caixa(
            a,
            b,
            a.sessao@,
            entre(a.categoria_cursor + delta, 0, a.store.dados().categories@.len() as int) as usize,
            a.renomear_categoria,
        )
    }
}

/// The category identifier that the task `id` has in `todos` (the first
/// task with that identifier), if any.
pub open spec fn categoria_actual(todos: Seq<Todo>, id: Seq<char>) -> Option<Seq<char>> {
    if tem_id(todos, id) {
        match todos[primeira(todos, id)].category_id {
            Some(c) => Some(c@),
            None => None,
        }
    } else {
        None
    }
}

/// The status after `Enter` in the box with the category `c` on the
/// cursor (none for «no category»); `ja` when the task already had it.
pub open spec fn texto_da_atribuicao(c: Option<Category>, ja: bool) -> Seq<char> {
    match c {
        Some(c) => {
            let inicio = if ja {
                "Já estava em «"@
            } else {
                "Atribuída a «"@
            };
            inicio + nome_cortado(c.name@) + "»"@
        },
        None => if ja {
            "Já estava sem categoria"@
        } else {
            "Atribuição de categoria removida"@
        },
    }
}

/// The box closed: back to the view it opened over, its cursor and the
/// selection inside their lines.
pub open spec fn caixa_fechada(a: App, b: App) -> bool {
    &&& b.sessao@ == cancelada(a.sessao@)
    &&& b.filter == a.filter
    &&& b.query == a.query
    &&& b.sort == a.sort
    &&& b.category_filter == a.category_filter
    &&& b.renomear_categoria == a.renomear_categoria
    &&& b.config_path == a.config_path
    &&& b.armado == a.armado
    &&& b.categoria_cursor == cursor_na_caixa(a.categoria_cursor, b.store.dados().categories@.len())
    &&& b.selecionada == limitada_em(a, b)
}

/// `Enter` in the box: the selected task takes the category on the cursor
/// (or loses its category, on «no category») and the box closes. When it
/// already had it nothing is written, and the message says so. With no
/// task selected, the error says so and the box stays.
pub open spec fn apos_atribuir(a: App, b: App, r: Efeito) -> bool {
    if a.sessao@.mode != InputMode::Category {
        b == a && r == Efeito::Nada
    } else {
        match selecao(a) {
            None => so_o_erro(a, b, sem_selecao_texto()) && r == Efeito::Nada,
            Some(t) => {
                let todos = a.store.dados().todos@;
                let alvo = no_cursor(a);
                if categoria_actual(todos, t.id@) == id_de(alvo) {
                    &&& b.store == a.store
                    &&& caixa_fechada(a, b)
                    &&& b.status matches Status::Message { texto, .. } && texto@
                        == texto_da_atribuicao(alvo, true)
                    &&& r == Efeito::Nada
                } else if !tem_id(todos, t.id@) {
                    falhou(a, b, OpsError::NotFound(t.id)) && r == Efeito::Nada
                } else {
                    let k = primeira(todos, t.id@);
                    &&& tarefa_trocada(
                        a.store,
                        b.store,
                        k,
                        Todo {
                            category_id: match alvo {
                                Some(c) => Some(c.id),
                                None => None,
                            },
                            ..todos[k]
                        },
                    )
                    &&& caixa_fechada(a, b)
                    &&& b.status matches Status::Message { texto, .. } && texto@
                        == texto_da_atribuicao(alvo, false)
                    &&& r == Efeito::Gravar
                }
            },
        }
    }
}

/// `a` and `e` in the box: the line of the name opens over it, empty to
/// create, with the name of the category on the cursor to rename it.
/// «No category» is not renamed.
pub open spec fn apos_abrir_nome(a: App, b: App, renomear: bool) -> bool {
    if a.sessao@.mode != InputMode::Category || (renomear && no_cursor(a) is None) {
        b == a
    } else {
        so_a_caixa(
            a,
            b,
            com_linha_do_nome(
                a.sessao@,
                if renomear {
                    no_cursor(a)->0.name@
                } else {
                    seq![]
                },
            ),
            a.categoria_cursor,
            renomear,
        )
    }
}

/// The guard armed on the category `c`: nothing else changed.
pub open spec fn armou_categoria(a: App, b: App, c: Category, r: Efeito) -> bool {
    &&& b.store == a.store
    &&& b.armado matches Some((Guarda::EliminarCategoria(x), _)) && x == c.id
    &&& b.sessao == a.sessao
    &&& b.status == a.status
    &&& b.filter == a.filter
    &&& b.query == a.query
    &&& b.sort == a.sort
    &&& b.category_filter == a.category_filter
    &&& b.categoria_cursor == a.categoria_cursor
    &&& b.renomear_categoria == a.renomear_categoria
    &&& b.config_path == a.config_path
    &&& b.selecionada == a.selecionada
    &&& r == Efeito::Nada
}

/// The category `c` deleted: it is gone, every task of the list and of the
/// trash lost it, the message gives its name and how many tasks lost it, a
/// category filter on it goes back to every task, and the guard is
/// disarmed.
pub open spec fn eliminou(a: App, b: App, c: Category, r: Efeito) -> bool {
    let antes = a.store.dados();
    let n = referencias_a(antes.todos@, c.id@) + referencias_a(
        crate::dominio::store::tarefas_do_lixo(antes.trash@),
        c.id@,
    );
    &&& efeito_delete_category(a.store, b.store, c.id, Ok::<usize, OpsError>(n as usize))
    &&& so_dados(a.store, b.store)
    &&& b.status matches Status::Message { texto, .. } && exists|k: int|
        #[trigger] e_primeira_categoria(antes.categories@, c.id@, k) && texto@ == texto_da_eliminacao(
            antes.categories@[k].name@,
            n,
        )
    &&& b.category_filter == if a.category_filter matches CategoryFilter::Uma(x) && x@ == c.id@ {
        CategoryFilter::Todas
    } else {
        a.category_filter
    }
    &&& b.armado is None
    &&& b.sessao == a.sessao
    &&& b.filter == a.filter
    &&& b.query == a.query
    &&& b.sort == a.sort
    &&& b.renomear_categoria == a.renomear_categoria
    &&& b.config_path == a.config_path
    &&& b.categoria_cursor == cursor_na_caixa(a.categoria_cursor, b.store.dados().categories@.len())
    &&& b.selecionada == limitada_em(a, b)
    &&& r == Efeito::Gravar
}

/// `d` in the box: the first press arms the guard on the category of the
/// cursor, a second one in time deletes it. A guard armed on another
/// category is moved to this one. «No category» is not deleted.
pub open spec fn apos_eliminar(a: App, b: App, r: Efeito) -> bool {
    if a.sessao@.mode != InputMode::Category || no_cursor(a) is None {
        b == a && r == Efeito::Nada
    } else {
        let c = no_cursor(a)->0;
        if a.armado matches Some((Guarda::EliminarCategoria(x), _)) && x@ == c.id@ {
            eliminou(a, b, c, r) || armou_categoria(a, b, c, r)
        } else {
            armou_categoria(a, b, c, r)
        }
    }
}

/// The category filter after `cf` in the cycle of `F`: every task, those
/// without a category, then each category in the order they were created,
/// then every task again.
pub open spec fn filtro_de_categoria_seguinte(cf: CategoryFilter, cats: Seq<Category>) -> CategoryFilter {
    match cf {
        CategoryFilter::Todas => CategoryFilter::SemCategoria,
        CategoryFilter::SemCategoria => if cats.len() > 0 {
            CategoryFilter::Uma(cats[0].id)
        } else {
            CategoryFilter::Todas
        },
        CategoryFilter::Uma(id) => {
            let p = indice_da_categoria(cats, id@);
            if p + 1 < cats.len() {
                CategoryFilter::Uma(cats[p + 1int].id)
            } else {
                CategoryFilter::Todas
            }
        },
    }
}

/// `F` on the list: the next category filter, the selection inside its
/// view.
pub open spec fn apos_filtro_de_categoria(a: App, b: App) -> bool {
    if a.sessao@.mode != InputMode::Normal {
        b == a
    } else {
        &&& b.store == a.store
        &&& b.sessao == a.sessao
        &&& b.status == a.status
        &&& b.filter == a.filter
        &&& b.query == a.query
        &&& b.sort == a.sort
        &&& b.categoria_cursor == a.categoria_cursor
        &&& b.renomear_categoria == a.renomear_categoria
        &&& b.config_path == a.config_path
        &&& b.armado == a.armado
        &&& b.category_filter == filtro_de_categoria_seguinte(
            a.category_filter,
            a.store.dados().categories@,
        )
        &&& b.selecionada == limitada_em(a, b)
    }
}

/// Back from the line of the name to the box: the line empty, the cursor of
/// the box on its lines.
pub open spec fn de_volta(a: App, b: App) -> bool {
    &&& b.sessao@ == de_volta_a_caixa(a.sessao@)
    &&& !b.renomear_categoria
    &&& b.categoria_cursor == cursor_na_caixa(a.categoria_cursor, b.store.dados().categories@.len())
    &&& b.filter == a.filter
    &&& b.query == a.query
    &&& b.sort == a.sort
    &&& b.category_filter == a.category_filter
    &&& b.config_path == a.config_path
    &&& b.armado == a.armado
    &&& b.selecionada == a.selecionada
}

/// A name refused with `e`: the line stays open with what was written, and
/// the status says why.
pub open spec fn nome_recusado(a: App, b: App, e: OpsError) -> bool {
    &&& intacta(a.store, b.store)
    &&& b.sessao == a.sessao
    &&& b.filter == a.filter
    &&& b.query == a.query
    &&& b.sort == a.sort
    &&& b.category_filter == a.category_filter
    &&& b.categoria_cursor == a.categoria_cursor
    &&& b.renomear_categoria == a.renomear_categoria
    &&& b.config_path == a.config_path
    &&& b.armado == a.armado
    &&& b.selecionada == a.selecionada
    &&& b.status matches Status::Error(t) && t@ == texto_do_erro_de_nome(
        e,
        a.sessao@.linha,
        a.store.caminho(),
    )
}

/// `Enter` on the line of the name: the category is created, or the one
/// on the cursor renamed, and the line goes back to the box; a refused
/// name keeps the line open and says why.
pub open spec fn apos_confirmar_nome(a: App, b: App, r: Efeito) -> bool {
    let texto = a.sessao@.linha;
    let cats = a.store.dados().categories@;
    if a.renomear_categoria {
        match no_cursor(a) {
            None => de_volta(a, b) && b.store == a.store && b.status == a.status && r == Efeito::Nada,
            Some(c) => if exists|s: String|
                #[trigger] validacao_do_nome(cats, texto, Some(c.id@), Ok::<String, OpsError>(s)) {
                &&& efeito_rename_category(a.store, b.store, c.id, texto, Ok::<(), OpsError>(()))
                &&& so_dados(a.store, b.store)
                &&& de_volta(a, b)
                &&& b.status matches Status::Message { texto: m, .. } && exists|k: int|
                    #[trigger] e_primeira_categoria(cats, c.id@, k) && m@ == "Renomeada «"@
                        + nome_cortado(cats[k].name@) + "» para «"@ + nome_cortado(texto) + "»"@
                &&& r == Efeito::Gravar
            } else {
                exists|e: OpsError|
                    #[trigger] validacao_do_nome(cats, texto, Some(c.id@), Err::<String, OpsError>(e))
                        && nome_recusado(a, b, e) && r == Efeito::Nada
            },
        }
    } else if exists|s: String| #[trigger] validacao_do_nome(cats, texto, None, Ok::<String, OpsError>(s)) {
        &&& exists|id: CategoryId| #[trigger]
            efeito_add_category(a.store, b.store, texto, Ok::<CategoryId, OpsError>(id))
        &&& so_dados(a.store, b.store)
        &&& de_volta(a, b)
        &&& b.status matches Status::Message { texto: m, .. } && m@ == "Criada «"@ + nome_cortado(texto)
            + "»"@
        &&& r == Efeito::Gravar
    } else {
        exists|e: OpsError|
            #[trigger] validacao_do_nome(cats, texto, None, Err::<String, OpsError>(e)) && nome_recusado(
                a,
                b,
                e,
            ) && r == Efeito::Nada
    }
}

/// The cursor `c` moved `delta` lines and held between the first line and
/// line `ultimo`.
pub fn mover_cursor(c: usize, delta: isize, ultimo: usize) -> (r: usize)
    ensures
        r == entre(c + delta, 0, ultimo as int),
{
    let alvo: i128 = c as i128 + delta as i128;
    if alvo < 0 {
        0
    } else if alvo > ultimo as i128 {
        ultimo
    } else {
        alvo as usize
    }
}

/// Whether two optional category identifiers are the same.
fn mesma_categoria(a: &Option<CategoryId>, b: &Option<&Category>) -> (r: bool)
    ensures
        r == ((match *a {
            Some(x) => Some(x@),
            None => None::<Seq<char>>,
        }) == (match *b {
            Some(c) => Some(c.id@),
            None => None::<Seq<char>>,
        })),
{
    match (a, b) {
        (Some(x), Some(c)) => x.igual(&c.id),
        (None, None) => true,
        _ => false,
    }
}

impl App {
    /// The cursor of the box back onto its lines.
    fn clamp_categoria_cursor(&mut self)
        ensures
            final(self).categoria_cursor == cursor_na_caixa(
                old(self).categoria_cursor,
                old(self).store.dados().categories@.len(),
            ),
            *final(self) == (App { categoria_cursor: final(self).categoria_cursor, ..*old(self) }),
    {
        let n = self.store.categories().len();
        if self.categoria_cursor > n {
            self.categoria_cursor = n;
        }
    }

    /// The category under the cursor of the box, if the line is one.
    fn categoria_no_cursor(&self) -> (r: Option<&Category>)
        ensures
            match r {
                Some(c) => no_cursor(*self) == Some(*c),
                None => no_cursor(*self) is None,
            },
    {
        if self.categoria_cursor == 0 {
            return None;
        }
        let i = self.categoria_cursor - 1;
        if i < self.store.categories().len() {
            Some(&self.store.categories()[i])
        } else {
            None
        }
    }

    fn abrir_caixa_de_categorias(&mut self)
        ensures
            apos_abrir_caixa(*old(self), *final(self)),
    {
        if self.sessao.mode() != InputMode::Normal {
            return;
        }
        self.categoria_cursor = 0;
        self.sessao.abrir_caixa_de_categorias();
    }

    fn mover_na_caixa(&mut self, delta: isize)
        ensures
            apos_mover_na_caixa(*old(self), *final(self), delta as int),
    {
        if self.sessao.mode() != InputMode::Category {
            return;
        }
        let n = self.store.categories().len();
        self.categoria_cursor = mover_cursor(self.categoria_cursor, delta, n);
    }

    /// Closes the box, back to the view it opened over.
    fn fechar_caixa(&mut self)
        requires
            old(self).sessao@.mode == InputMode::Category,
        ensures
            caixa_fechada(*old(self), *final(self)),
            final(self).store == old(self).store,
            final(self).status == old(self).status,
    {
        self.sessao.cancelar();
        self.clamp_categoria_cursor();
        self.clamp_selection();
    }

    #[verifier::spinoff_prover]
    #[verifier::rlimit(50)]
    fn atribuir_categoria(&mut self) -> (r: Efeito)
        ensures
            apos_atribuir(*old(self), *final(self), r),
    {
        if self.sessao.mode() != InputMode::Category {
            return Efeito::Nada;
        }
        let ghost a = *self;
        let tarefa = match self.selected_id() {
            Some(id) => id,
            None => {
                self.status = Status::Error("Erro: não há nenhuma tarefa selecionada".to_owned());
                return Efeito::Nada;
            },
        };
        let (alvo, nome) = match self.categoria_no_cursor() {
            Some(c) => (Some(c.id.copia()), Some(nome_na_mensagem(c.name.as_str()))),
            None => (None, None),
        };
        let actual = match self.store.find(&tarefa) {
            Some(t) => crate::dominio::model::copia_categoria(&t.category_id),
            None => None,
        };
        let mesma = mesma_categoria(&actual, &self.categoria_no_cursor());
        let texto = match (&nome, mesma) {
            (Some(n), true) => {
                let mut s = "Já estava em «".to_owned();
                s.append(n.as_str());
                s.append("»");
                s
            },
            (Some(n), false) => {
                let mut s = "Atribuída a «".to_owned();
                s.append(n.as_str());
                s.append("»");
                s
            },
            (None, true) => "Já estava sem categoria".to_owned(),
            (None, false) => "Atribuição de categoria removida".to_owned(),
        };
        let ghost t = selecao(a)->0;
        proof {
            assert(tarefa == t.id);
            assert(mesma == (categoria_actual(a.store.dados().todos@, t.id@) == id_de(no_cursor(a))));
            assert(texto@ == texto_da_atribuicao(no_cursor(a), mesma));
        }
        if mesma {
            self.fechar_caixa();
            self.status = Status::Message { texto, desde: agora_monotono() };
            return Efeito::Nada;
        }
        match self.store.assign_category(&tarefa, alvo.as_ref()) {
            Ok(()) => {
                self.fechar_caixa();
                self.status = Status::Message { texto, desde: agora_monotono() };
                Efeito::Gravar
            },
            Err(e) => {
                proof {
                    let cats = a.store.dados().categories@;
                    if no_cursor(a) is Some {
                        let i = (a.categoria_cursor - 1) as int;
                        assert(cats[i].id@ == no_cursor(a)->0.id@);
                        assert(crate::dominio::store::categoria_existe(cats, no_cursor(a)->0.id@));
                    }
                    assert(!tem_id(a.store.dados().todos@, t.id@));
                    assert(e == OpsError::NotFound(t.id));
                }
                self.falha(e);
                Efeito::Nada
            },
        }
    }

    fn abrir_linha_do_nome(&mut self, renomear: bool)
        ensures
            apos_abrir_nome(*old(self), *final(self), renomear),
    {
        if self.sessao.mode() != InputMode::Category {
            return;
        }
        let inicial = if renomear {
            match self.categoria_no_cursor() {
                Some(c) => c.name.clone(),
                None => return,
            }
        } else {
            String::new()
        };
        self.renomear_categoria = renomear;
        self.sessao.abrir_linha_do_nome(inicial.as_str());
    }

    /// Back to the box from the line of the name.
    fn voltar_a_caixa(&mut self)
        ensures
            de_volta(*old(self), *final(self)),
            final(self).store == old(self).store,
            final(self).status == old(self).status,
    {
        self.sessao.voltar_a_caixa();
        self.renomear_categoria = false;
        self.clamp_categoria_cursor();
    }

    fn confirmar_ou_eliminar_categoria(&mut self) -> (r: Efeito)
        requires
            old(self).store.dados().todos@.len() + old(self).store.dados().trash@.len() <= usize::MAX,
        ensures
            apos_eliminar(*old(self), *final(self), r),
    {
        if self.sessao.mode() != InputMode::Category {
            return Efeito::Nada;
        }
        let id = match self.categoria_no_cursor() {
            Some(c) => c.id.copia(),
            None => return Efeito::Nada,
        };
        let confirma = match self.categoria_armada() {
            Some(x) => x.igual(&id),
            None => false,
        };
        if confirma {
            self.eliminar_categoria(&id)
        } else {
            self.armado = Some((Guarda::EliminarCategoria(id), fim_da_janela()));
            Efeito::Nada
        }
    }

    fn eliminar_categoria(&mut self, id: &CategoryId) -> (r: Efeito)
        requires
            old(self).store.dados().todos@.len() + old(self).store.dados().trash@.len() <= usize::MAX,
            no_cursor(*old(self)) matches Some(c) && c.id == *id,
        ensures
            eliminou(*old(self), *final(self), no_cursor(*old(self))->0, r),
    {
        let ghost a = *self;
        let ghost cats = self.store.dados().categories@;
        let ghost i = (self.categoria_cursor - 1) as int;
        assert(cats[i].id@ == id@);
        assert(crate::dominio::store::categoria_existe(cats, id@));
        let nome = match self.store.category(id) {
            Some(c) => c.name.clone(),
            None => String::new(),
        };
        let ghost k = choose|k: int| e_primeira_categoria(cats, id@, k) && nome@ == cats[k].name@;
        proof {
            crate::dominio::ops::lemma_referencias_no_maximo(a.store.dados().todos@, id@);
            crate::dominio::ops::lemma_referencias_no_maximo(
                crate::dominio::store::tarefas_do_lixo(a.store.dados().trash@),
                id@,
            );
        }
        match self.store.delete_category(id) {
            Ok(afectadas) => {
                let filtrada = match self.category_filter.id() {
                    Some(x) => x.igual(id),
                    None => false,
                };
                if filtrada {
                    self.category_filter = CategoryFilter::Todas;
                }
                self.armado = None;
                self.clamp_categoria_cursor();
                self.clamp_selection();
                let texto = mensagem_eliminada(nome.as_str(), afectadas);
                self.status = Status::Message { texto, desde: agora_monotono() };
                proof {
                    assert(e_primeira_categoria(cats, id@, k));
                }
            },
            Err(e) => {
                self.falha(e);
            },
        }
        Efeito::Gravar
    }

    fn ciclar_filtro_de_categoria(&mut self)
        ensures
            apos_filtro_de_categoria(*old(self), *final(self)),
    {
        if self.sessao.mode() != InputMode::Normal {
            return;
        }
        let cats = self.store.categories();
        let novo = match &self.category_filter {
            CategoryFilter::Todas => CategoryFilter::SemCategoria,
            CategoryFilter::SemCategoria => if cats.len() > 0 {
                CategoryFilter::Uma(cats[0].id.copia())
            } else {
                CategoryFilter::Todas
            },
            CategoryFilter::Uma(id) => {
                let p = indice_de_categoria(cats, id);
                if p < cats.len() && p + 1 < cats.len() {
                    CategoryFilter::Uma(cats[p + 1].id.copia())
                } else {
                    CategoryFilter::Todas
                }
            },
        };
        self.category_filter = novo;
        self.clamp_selection();
    }

    /// `Enter` on the line of the name of a category.
    #[verifier::spinoff_prover]
    #[verifier::rlimit(50)]
    fn confirmar_nome(&mut self) -> (r: Efeito)
        requires
            old(self).sessao@.mode == InputMode::CategoryName,
        ensures
            apos_confirmar_nome(*old(self), *final(self), r),
    {
        let ghost a = *self;
        let texto = self.sessao.input();
        let ghost cats = self.store.dados().categories@;
        if self.renomear_categoria {
            let id = match self.categoria_no_cursor() {
                Some(c) => c.id.copia(),
                None => {
                    self.voltar_a_caixa();
                    return Efeito::Nada;
                },
            };
            let ghost i = (self.categoria_cursor - 1) as int;
            assert(cats[i].id@ == id@);
            let antigo = match self.store.category(&id) {
                Some(c) => c.name.clone(),
                None => String::new(),
            };
            let ghost k = choose|k: int| e_primeira_categoria(cats, id@, k) && antigo@ == cats[k].name@;
            match self.store.rename_category(&id, texto.as_str()) {
                Ok(()) => {
                    self.voltar_a_caixa();
                    let mut m = "Renomeada «".to_owned();
                    let velho = nome_na_mensagem(antigo.as_str());
                    m.append(velho.as_str());
                    m.append("» para «");
                    let novo = nome_na_mensagem(texto.as_str());
                    m.append(novo.as_str());
                    m.append("»");
                    self.status = Status::Message { texto: m, desde: agora_monotono() };
                    proof {
                        assert(e_primeira_categoria(cats, id@, k));
                        assert(exists|s: String| #[trigger]
                            validacao_do_nome(cats, texto@, Some(id@), Ok::<String, OpsError>(s)));
                    }
                    Efeito::Gravar
                },
                Err(e) => {
                    proof {
                        assert(crate::dominio::store::categoria_existe(cats, id@));
                        assert(validacao_do_nome(cats, texto@, Some(id@), Err::<String, OpsError>(e)));
                        assert(!exists|s: String| #[trigger]
                            validacao_do_nome(cats, texto@, Some(id@), Ok::<String, OpsError>(s)));
                    }
                    self.status = erro_de_nome(&e, texto.as_str(), self.store.path());
                    proof {
                        assert(nome_recusado(a, *self, e));
                    }
                    Efeito::Nada
                },
            }
        } else {
            match self.store.add_category(texto.as_str()) {
                Ok(_id) => {
                    self.voltar_a_caixa();
                    let mut m = "Criada «".to_owned();
                    let nome = nome_na_mensagem(texto.as_str());
                    m.append(nome.as_str());
                    m.append("»");
                    self.status = Status::Message { texto: m, desde: agora_monotono() };
                    proof {
                        assert(exists|s: String| #[trigger]
                            validacao_do_nome(cats, texto@, None, Ok::<String, OpsError>(s)));
                    }
                    Efeito::Gravar
                },
                Err(e) => {
                    proof {
                        assert(validacao_do_nome(cats, texto@, None, Err::<String, OpsError>(e)));
                        assert(!exists|s: String| #[trigger]
                            validacao_do_nome(cats, texto@, None, Ok::<String, OpsError>(s)));
                    }
                    self.status = erro_de_nome(&e, texto.as_str(), self.store.path());
                    proof {
                        assert(nome_recusado(a, *self, e));
                    }
                    Efeito::Nada
                },
            }
        }
    }
}

// ------------------------------------------------------- the keys applied

/// The action confirms what the guard protects: the `c` of the trash for
/// the trash, the `d` of the box for a category.
pub open spec fn confirma_a_guarda(armado: Option<(Guarda, std::time::Instant)>, action: Action) -> bool {
    match armado {
        Some((Guarda::EsvaziarLixo, _)) => action == Action::EmptyTrash,
        Some((Guarda::EliminarCategoria(_), _)) => action == Action::CategoryDelete,
        None => false,
    }
}

/// The guard has a target: it stays armed only for the action that
/// confirms that target; any other action but the empty one disarms it.
pub open spec fn desarmada(a: App, action: Action) -> App {
    if action != Action::Ignore && !confirma_a_guarda(a.armado, action) {
        App { armado: None, ..a }
    } else {
        a
    }
}

/// What an action does to the screen `a` (the guard already settled).
pub open spec fn apos_accao(a: App, b: App, action: Action, r: Efeito) -> bool {
    if e_texto(a.sessao@.mode) {
        match action {
            Action::Quit => so_a_sessao(a, b, VistaSessao { a_sair: true, ..a.sessao@ }) && r
                == Efeito::Nada,
            Action::Input(t) => {
                let (l, c) = editada(a.sessao@.linha, a.sessao@.cursor, t);
                so_a_sessao(a, b, VistaSessao { linha: l, cursor: c, ..a.sessao@ }) && r
                    == Efeito::Nada
            },
            Action::InputConfirm => apos_confirmar(a, b, r),
            Action::InputCancel => r == Efeito::Nada && if a.sessao@.mode == InputMode::CategoryName {
                de_volta(a, b) && b.store == a.store && b.status == a.status
            } else {
                so_a_sessao(a, b, sem_linha(a.sessao@))
            },
            _ => b == a && r == Efeito::Nada,
        }
    } else {
        let n = vista_app(a).len() as usize;
        match action {
            Action::Quit => so_a_sessao(a, b, VistaSessao { a_sair: true, ..a.sessao@ }) && r
                == Efeito::Nada,
            Action::Up => so_a_selecao(a, b, movida_na_lista(a.selecionada, -1, n)) && r
                == Efeito::Nada,
            Action::Down => so_a_selecao(a, b, movida_na_lista(a.selecionada, 1, n)) && r
                == Efeito::Nada,
            Action::Home => r == Efeito::Nada && if a.sessao@.mode == InputMode::Category {
                so_a_caixa(a, b, a.sessao@, 0, a.renomear_categoria)
            } else {
                so_a_selecao(a, b, na_linha(0, n))
            },
            Action::End => r == Efeito::Nada && if a.sessao@.mode == InputMode::Category {
                so_a_caixa(
                    a,
                    b,
                    a.sessao@,
                    a.store.dados().categories@.len() as usize,
                    a.renomear_categoria,
                )
            } else {
                so_a_selecao(
                    a,
                    b,
                    na_linha(
                        if vista_app(a).len() == 0 {
                            0usize
                        } else {
                            (vista_app(a).len() - 1) as usize
                        },
                        n,
                    ),
                )
            },
            Action::AddStart => so_a_sessao(a, b, com_linha(a.sessao@, InputMode::Adding, seq![], false))
                && r == Efeito::Nada,
            Action::EditStart => apos_editar(a, b, false) && r == Efeito::Nada,
            Action::EditDescriptionStart => apos_editar(a, b, true) && r == Efeito::Nada,
            Action::Toggle => apos_alternar(a, b, r),
            Action::ToggleAll => apos_alternar_todas(a, b, r),
            Action::Trash => apos_remover(a, b, r),
            Action::Restore => if a.sessao@.mode == InputMode::Trash {
                apos_repor(a, b, r)
            } else {
                apos_desfazer(a, b, r)
            },
            Action::TrashView => apos_vista_do_lixo(a, b) && r == Efeito::Nada,
            Action::ClearCompleted => apos_limpar(a, b, r),
            Action::EmptyTrash => apos_esvaziar(a, b, r),
            Action::CycleSort => apos_ordem(a, b) && r == Efeito::Nada,
            Action::CycleFilter => apos_filtro(a, b) && r == Efeito::Nada,
            Action::SetPriority(p) => apos_prioridade(a, b, p, r),
            Action::SearchStart => so_a_sessao(a, b, com_linha(a.sessao@, InputMode::Search, seq![], false))
                && r == Efeito::Nada,
            Action::ImportStart => so_a_sessao(a, b, com_linha(a.sessao@, InputMode::Import, seq![], false))
                && r == Efeito::Nada,
            Action::ExportStart => so_a_sessao(a, b, com_linha(a.sessao@, InputMode::Export, seq![], false))
                && r == Efeito::Nada,
            Action::DismissMessage => apos_dispensar(a, b) && r == Efeito::Nada,
            Action::Help => so_a_sessao(a, b, com_ajuda(a.sessao@)) && r == Efeito::Nada,
            Action::InputCancel => apos_cancelar(a, b) && r == Efeito::Nada,
            Action::ThemeView => so_a_sessao(a, b, com_caixa_de_temas(a.sessao@)) && r
                == Efeito::Nada,
            Action::ThemeMove(d) => so_a_sessao(a, b, movida(a.sessao@, d as int)) && r
                == Efeito::Nada,
            Action::ThemeConfirm => so_a_sessao(a, b, confirmada(a.sessao@)) && r == (
            if a.sessao@.mode == InputMode::Theme && a.config_path is Some {
                Efeito::GravarTema(catalogo_spec()[a.sessao@.theme_cursor as int])
            } else {
                Efeito::Nada
            }),
            Action::ThemeCancel => so_a_sessao(a, b, tema_cancelado(a.sessao@)) && r
                == Efeito::Nada,
            Action::CategoryView => apos_abrir_caixa(a, b) && r == Efeito::Nada,
            Action::CategoryMove(d) => apos_mover_na_caixa(a, b, d as int) && r == Efeito::Nada,
            Action::CategoryAssign => apos_atribuir(a, b, r),
            Action::CategoryNew => apos_abrir_nome(a, b, false) && r == Efeito::Nada,
            Action::CategoryRename => apos_abrir_nome(a, b, true) && r == Efeito::Nada,
            Action::CategoryDelete => apos_eliminar(a, b, r),
            Action::CycleCategoryFilter => apos_filtro_de_categoria(a, b) && r == Efeito::Nada,
            _ => b == a && r == Efeito::Nada,
        }
    }
}

impl App {
    /// Applies an action: the only place where the data changes. Returns
    /// what is left to do outside (write the database or the preference,
    /// import or export a file).
    pub fn handle(&mut self, action: Action) -> (r: Efeito)
        requires
            maior_lote(old(self).store.dados().trash@) < u64::MAX,
            old(self).store.dados().todos@.len() + old(self).store.dados().trash@.len() <= usize::MAX,
        ensures
            apos_accao(desarmada(*old(self), action), *final(self), action, r),
    {
        let confirma = match &self.armado {
            Some((Guarda::EsvaziarLixo, _)) => action == Action::EmptyTrash,
            Some((Guarda::EliminarCategoria(_), _)) => action == Action::CategoryDelete,
            None => false,
        };
        if action != Action::Ignore && !confirma {
            self.armado = None;
        }
        if self.sessao.mode().is_text() {
            self.handle_text(action)
        } else {
            self.handle_normal(action)
        }
    }

    /// The actions outside a line of text.
    #[verifier::spinoff_prover]
    #[verifier::rlimit(60)]
    fn handle_normal(&mut self, action: Action) -> (r: Efeito)
        requires
            maior_lote(old(self).store.dados().trash@) < u64::MAX,
            old(self).store.dados().todos@.len() + old(self).store.dados().trash@.len() <= usize::MAX,
            !e_texto(old(self).sessao@.mode),
        ensures
            apos_accao(*old(self), *final(self), action, r),
    {
        proof {
            reveal_strlit("");
            assert(""@ =~= Seq::<char>::empty());
        }
        match action {
            Action::Quit => {
                self.sessao.quit();
                Efeito::Nada
            },
            Action::Up => {
                self.mover(-1);
                Efeito::Nada
            },
            Action::Down => {
                self.mover(1);
                Efeito::Nada
            },
            Action::Home => {
                if self.sessao.mode() == InputMode::Category {
                    self.categoria_cursor = 0;
                } else {
                    self.ir_para(0);
                }
                Efeito::Nada
            },
            Action::End => {
                if self.sessao.mode() == InputMode::Category {
                    self.categoria_cursor = self.store.categories().len();
                } else {
                    self.ir_para_o_fim();
                }
                Efeito::Nada
            },
            Action::AddStart => {
                self.sessao.open_line(InputMode::Adding, "", false);
                Efeito::Nada
            },
            Action::EditStart => {
                self.editar(false);
                Efeito::Nada
            },
            Action::EditDescriptionStart => {
                self.editar(true);
                Efeito::Nada
            },
            Action::Toggle => self.toggle_selected(),
            Action::ToggleAll => self.toggle_all(),
            Action::Trash => self.trash_selected(),
            Action::Restore => {
                if self.sessao.mode() == InputMode::Trash {
                    self.restore_selected()
                } else {
                    self.restore_last_batch()
                }
            },
            Action::TrashView => {
                self.toggle_trash_view();
                Efeito::Nada
            },
            Action::ClearCompleted => self.clear_completed(),
            Action::EmptyTrash => self.confirm_or_empty_trash(),
            Action::CycleSort => {
                self.sort = self.sort.next();
                self.clamp_selection();
                Efeito::Nada
            },
            Action::CycleFilter => {
                self.cycle_filter();
                Efeito::Nada
            },
            Action::SetPriority(p) => self.set_priority(p),
            Action::SearchStart => {
                self.sessao.open_line(InputMode::Search, "", false);
                Efeito::Nada
            },
            Action::ImportStart => {
                self.sessao.open_line(InputMode::Import, "", false);
                Efeito::Nada
            },
            Action::ExportStart => {
                self.sessao.open_line(InputMode::Export, "", false);
                Efeito::Nada
            },
            Action::DismissMessage => {
                self.dismiss();
                Efeito::Nada
            },
            Action::Help => {
                self.sessao.abrir_ajuda();
                Efeito::Nada
            },
            Action::InputCancel => {
                self.sessao.cancelar();
                self.clamp_selection();
                Efeito::Nada
            },
            Action::ThemeView => {
                self.sessao.abrir_caixa_de_temas();
                Efeito::Nada
            },
            Action::ThemeMove(d) => {
                self.sessao.mover_na_caixa_de_temas(d);
                Efeito::Nada
            },
            Action::ThemeConfirm => {
                let com_ficheiro = self.config_path.is_some();
                match self.sessao.confirmar_tema(com_ficheiro) {
                    Some(t) => Efeito::GravarTema(t),
                    None => Efeito::Nada,
                }
            },
            Action::ThemeCancel => {
                self.sessao.cancelar_tema();
                Efeito::Nada
            },
            Action::CategoryView => {
                self.abrir_caixa_de_categorias();
                Efeito::Nada
            },
            Action::CategoryMove(d) => {
                self.mover_na_caixa(d);
                Efeito::Nada
            },
            Action::CategoryAssign => self.atribuir_categoria(),
            Action::CategoryNew => {
                self.abrir_linha_do_nome(false);
                Efeito::Nada
            },
            Action::CategoryRename => {
                self.abrir_linha_do_nome(true);
                Efeito::Nada
            },
            Action::CategoryDelete => self.confirmar_ou_eliminar_categoria(),
            Action::CycleCategoryFilter => {
                self.ciclar_filtro_de_categoria();
                Efeito::Nada
            },
            _ => Efeito::Nada,
        }
    }

    /// The actions while a line of text is open.
    fn handle_text(&mut self, action: Action) -> (r: Efeito)
        requires
            e_texto(old(self).sessao@.mode),
        ensures
            apos_accao(*old(self), *final(self), action, r),
    {
        match action {
            Action::Quit => {
                self.sessao.quit();
                Efeito::Nada
            },
            Action::Input(t) => {
                self.sessao.edit_buffer(t);
                Efeito::Nada
            },
            Action::InputConfirm => self.confirm_line(),
            Action::InputCancel => {
                if self.sessao.mode() == InputMode::CategoryName {
                    self.voltar_a_caixa();
                } else {
                    self.sessao.close_line();
                }
                Efeito::Nada
            },
            _ => Efeito::Nada,
        }
    }
}

// ------------------------------------------- what came back from outside

/// The status line after an import: its summary when it went through, the
/// error otherwise.
pub open spec fn apos_importacao(a: App, b: App, r: Result<ImportReport, ImportError>, e: Efeito) -> bool {
    &&& b.store == a.store
    &&& b.sessao == a.sessao
    &&& b.filter == a.filter
    &&& b.query == a.query
    &&& b.sort == a.sort
    &&& b.category_filter == a.category_filter
    &&& b.categoria_cursor == a.categoria_cursor
    &&& b.renomear_categoria == a.renomear_categoria
    &&& b.config_path == a.config_path
    &&& b.armado == a.armado
    &&& match r {
        Ok(rel) => {
            &&& b.status matches Status::Message { texto, .. } && texto@ == texto_da_importacao(rel)
            &&& b.selecionada == limitada_em(a, b)
            &&& e == (if rel.inseridos == 0 && rel.lixo == 0 && rel.categorias_criadas == 0 {
                Efeito::Nada
            } else {
                Efeito::Gravar
            })
        },
        Err(err) => {
            &&& b.status matches Status::Error(t) && t@ == "Erro: "@ + texto_do_erro_de_import(err)
            &&& b.selecionada == a.selecionada
            &&& e == Efeito::Nada
        },
    }
}

impl App {
    /// Translates the key and applies its action. Returns the action and
    /// what is left to do outside.
    pub fn on_key(&mut self, tecla: Tecla) -> (r: (Action, Efeito))
        requires
            maior_lote(old(self).store.dados().trash@) < u64::MAX,
            old(self).store.dados().todos@.len() + old(self).store.dados().trash@.len() <= usize::MAX,
        ensures
            r.0 == crate::tui::event::acao(old(self).sessao@.mode, tecla),
            apos_accao(desarmada(*old(self), r.0), *final(self), r.0, r.1),
    {
        let action = crate::tui::event::map_key(&self.sessao.mode(), tecla);
        let efeito = self.handle(action);
        (action, efeito)
    }

    /// Lets an action message expire at `agora`.
    pub fn tick(&mut self, agora: std::time::Instant)
        ensures
            final(self).status == apos_tick(old(self).status, agora),
            final(self).store == old(self).store,
            final(self).sessao == old(self).sessao,
            final(self).selecionada == old(self).selecionada,
            final(self).filter == old(self).filter,
            final(self).query == old(self).query,
            final(self).sort == old(self).sort,
            final(self).category_filter == old(self).category_filter,
            final(self).categoria_cursor == old(self).categoria_cursor,
            final(self).renomear_categoria == old(self).renomear_categoria,
            final(self).config_path == old(self).config_path,
            final(self).armado == old(self).armado,
    {
        self.status.tick(agora);
    }

    /// An import ran on the data: its summary, or its error, on the status
    /// line. Returns whether the data is to be written.
    pub fn resultado_da_importacao(&mut self, r: &Result<ImportReport, ImportError>) -> (e: Efeito)
        ensures
            apos_importacao(*old(self), *final(self), *r, e),
    {
        match r {
            Ok(rel) => {
                self.status = mensagem_da_importacao(rel);
                self.clamp_selection();
                if rel.sem_alteracoes() {
                    Efeito::Nada
                } else {
                    Efeito::Gravar
                }
            },
            Err(err) => {
                let mut t = "Erro: ".to_owned();
                let m = err.mensagem();
                t.append(m.as_str());
                self.status = Status::Error(t);
                Efeito::Nada
            },
        }
    }

    /// An export to `caminho` ran: how many tasks went out, or the error.
    pub fn resultado_da_exportacao(&mut self, r: &Result<usize, ExportError>, caminho: &str)
        ensures
            mesmos_dados(*old(self), *final(self)),
            final(self).sessao == old(self).sessao,
            final(self).selecionada == old(self).selecionada,
            match *r {
                Ok(n) => final(self).status matches Status::Message { texto, .. } && texto@
                    == "Exportadas "@ + decimal(n as nat) + " tarefas para "@ + caminho@,
                Err(e) => final(self).status matches Status::Error(t) && t@ == "Erro: "@
                    + texto_do_erro_de_export(e),
            },
    {
        match r {
            Ok(n) => {
                let mut t = "Exportadas ".to_owned();
                t.append(em_decimal(*n as u64).as_str());
                t.append(" tarefas para ");
                t.append(caminho);
                self.status = Status::Message { texto: t, desde: agora_monotono() };
            },
            Err(e) => {
                let mut t = "Erro: ".to_owned();
                t.append(e.mensagem().as_str());
                self.status = Status::Error(t);
            },
        }
    }

    /// Writing the theme preference `tema` went through (`gravou`) or not;
    /// failing is not fatal: the theme stays for this session.
    pub fn resultado_do_tema(&mut self, tema: Theme, gravou: bool)
        ensures
            mesmos_dados(*old(self), *final(self)),
            final(self).sessao == old(self).sessao,
            final(self).selecionada == old(self).selecionada,
            gravou ==> (final(self).status matches Status::Message { texto, .. } && texto@
                == texto_tema_gravado(tema)),
            !gravou ==> match old(self).config_path {
                Some(p) => final(self).status matches Status::Error(t) && t@
                    == texto_tema_nao_gravado(p@),
                None => final(self).status == old(self).status,
            },
    {
        if gravou {
            self.status = mensagem_tema_gravado(tema);
        } else {
            match &self.config_path {
                Some(p) => {
                    self.status = erro_tema_nao_gravado(p.as_str());
                },
                None => {},
            }
        }
    }

    /// Writing the database failed with `e`: the changes stay in memory for
    /// another try, and the status line says where nothing was written.
    pub fn falha_ao_gravar(&mut self, e: crate::dominio::store::StoreError)
        ensures
            falhou(*old(self), *final(self), OpsError::Persist(e)),
    {
        self.falha(OpsError::Persist(e));
    }
}

// --------------------------------------------------------------- the laws

/// `d` and then `u` on the list give the list back as it was: the task
/// removed is back at its old position.
pub proof fn lei_remover_e_desfazer(a: App, m: App, b: App, r1: Efeito, r2: Efeito)
    requires
        selecao(a) matches Some(t) && tem_id(a.store.dados().todos@, t.id@),
        apos_remover(a, m, r1),
        apos_desfazer(m, b, r2),
    ensures
        b.store.dados().todos@ == a.store.dados().todos@,
{
    let t = selecao(a)->0;
    let db = a.store.dados();
    let e = m.store.dados().trash@.last();
    let saidas = saidas_do_lixo(db.trash@.push(e));
    assert(efeito_remove(db, t.id@, m.store.dados(), saidas));
    assert(m.store.dados().trash@.len() > 0);
    let (n, d) = choose|n: nat, d: int|
        #![trigger efeito_restore_last_batch(m.store.dados(), b.store.dados(), n), hora_e_minuto(m.store.dados().trash@.last().deleted_at, d)]
        efeito_restore_last_batch(m.store.dados(), b.store.dados(), n) && -86_400 < d < 86_400;
    lei_desfazer_remocao(db, t.id@, m.store.dados(), saidas, b.store.dados(), n);
}

/// `c` and then `u` give the list and the trash back as they were, when the
/// trash had room for the whole batch.
pub proof fn lei_limpar_e_desfazer(a: App, m: App, b: App, r1: Efeito, r2: Efeito)
    requires
        indices_concluidas(a.store.dados().todos@).len() > 0,
        a.store.dados().trash@.len() + indices_concluidas(a.store.dados().todos@).len()
            <= TRASH_LIMIT,
        apos_limpar(a, m, r1),
        apos_desfazer(m, b, r2),
    ensures
        b.store.dados().todos@ == a.store.dados().todos@,
        b.store.dados().trash@ == a.store.dados().trash@,
{
    let (novos, c) = choose|novos: Seq<Trashed>, c: ClearOutcome|
        #[trigger] limpeza(a.store, m.store, novos, c);
    let db = a.store.dados();
    assert(lote_de_concluidas(db.todos@, novos, maior_lote(db.trash@) + 1));
    assert(efeito_clear_completed(db, m.store.dados(), novos, c));
    assert(m.store.dados().trash@.len() > 0) by {
        assert(m.store.dados().trash@ == crate::dominio::ops::lixo_depois(db.trash@, novos));
        assert(novos.len() > 0);
    }
    let (n, d) = choose|n: nat, d: int|
        #![trigger efeito_restore_last_batch(m.store.dados(), b.store.dados(), n), hora_e_minuto(m.store.dados().trash@.last().deleted_at, d)]
        efeito_restore_last_batch(m.store.dados(), b.store.dados(), n) && -86_400 < d < 86_400;
    lei_desfazer_limpeza(db, m.store.dados(), novos, c, b.store.dados(), n);
}


/// The selection is inside the view: there is one exactly when the view has
/// lines, and it points at one of them.
pub open spec fn selecao_na_vista(a: App) -> bool {
    &&& (vista_app(a).len() == 0 <==> a.selecionada is None)
    &&& (a.selecionada matches Some(i) ==> (i as int) < vista_app(a).len())
}

/// The actions that, from the trash, open a view of the list (a line of
/// text, the help, the theme box) and keep the selection as it is.
pub open spec fn sai_do_lixo_sem_acertar(action: Action) -> bool {
    ||| action == Action::AddStart
    ||| action == Action::EditStart
    ||| action == Action::EditDescriptionStart
    ||| action == Action::SearchStart
    ||| action == Action::ImportStart
    ||| action == Action::ExportStart
    ||| action == Action::Help
    ||| action == Action::ThemeView
}

/// The actions that, in mode `modo`, go back to the view the box or the help
/// was opened from, keeping the selection as it is.
pub open spec fn volta_ao_lixo_sem_acertar(modo: InputMode, action: Action) -> bool {
    ||| modo == InputMode::Theme && (action == Action::ThemeConfirm || action == Action::ThemeCancel)
    ||| (modo == InputMode::Help || modo == InputMode::Category || modo == InputMode::CategoryName)
        && action == Action::InputCancel
    ||| modo == InputMode::CategoryName && action == Action::InputConfirm
}

/// The selection never hangs outside the view: after an action, there is a
/// selection exactly when the view on the screen has lines, and it points
/// at one of them. Three moves keep the selection as it was while the view
/// changes under it, and are left out: opening from the trash a line of
/// text, the help or the theme box (the list comes back on the screen);
/// going back to the trash from a box or the help opened there; and
/// confirming the edit of a task while a search is active (the search may
/// no longer find it). The views are lists the program holds, so their
/// lengths fit in a `usize`.
#[verifier::rlimit(60)]
pub proof fn lei_a_selecao_fica_na_vista(a: App, b: App, action: Action, r: Efeito)
    requires
        !(a.sessao@.mode == InputMode::Trash && sai_do_lixo_sem_acertar(action)),
        !(a.sessao@.return_mode == InputMode::Trash && volta_ao_lixo_sem_acertar(a.sessao@.mode, action)),
        !(action == Action::InputConfirm && a.sessao@.mode == InputMode::Editing && a.query@.len() > 0),
        vista_app(a).len() <= usize::MAX,
        vista_app(b).len() <= usize::MAX,
        selecao_na_vista(a),
        apos_accao(desarmada(a, action), b, action, r),
    ensures
        selecao_na_vista(b),
{
    let a1 = desarmada(a, action);
    assert(vista_app(a1) == vista_app(a));
    if action == Action::InputConfirm {
        if a1.sessao@.mode == InputMode::Editing {
            if let Some(t) = selecao(a1) {
                let todos = a1.store.dados().todos@;
                let limpo = aparado(a1.sessao@.linha);
                if !(!a1.sessao@.descricao && limpo.len() == 0) && tem_id(todos, t.id@) {
                    let d = b.store.dados();
                    crate::dominio::ops::lemma_tem_primeira(todos, t.id@);
                    let k = crate::dominio::ops::primeira(todos, t.id@);
                    assert(e_texto(a1.sessao@.mode));
                    assert(apos_confirmar(a1, b, r));
                    assert(d.todos@.len() == todos.len());
                    assert forall|i: int| 0 <= i < todos.len() implies (#[trigger] todos[i]).done
                        == d.todos@[i].done && todos[i].category_id == d.todos@[i].category_id by {
                        if i != k {
                            assert(d.todos@[i] == todos[i]);
                        }
                    }
                    assert(parecidas(todos, d.todos@));
                    let q = a1.query@;
                    lemma_vista_do_mesmo_tamanho(Filter::Active, a1.sort, a1.category_filter, q, a1.store.dados(), d);
                    lemma_vista_do_mesmo_tamanho(Filter::Done, a1.sort, a1.category_filter, q, a1.store.dados(), d);
                    lemma_vista_do_mesmo_tamanho(a1.filter, a1.sort, a1.category_filter, q, a1.store.dados(), d);
                    assert(vista_app(b).len() == vista_app(a1).len());
                }
            }
            assert(selecao_na_vista(b));
        } else if a1.sessao@.mode == InputMode::Adding {
            let v = vista_app(b);
            let id = b.store.dados().todos@.last().id@;
            if crate::dominio::ops::tem_id(v, id) {
                crate::dominio::ops::lemma_tem_primeira(v, id);
            }
            assert(selecao_na_vista(b));
        } else if a1.sessao@.mode == InputMode::CategoryName {
            let d0 = a1.store.dados();
            let d = b.store.dados();
            assert(apos_confirmar(a1, b, r));
            assert(d.todos@ == d0.todos@ && d.trash@ == d0.trash@);
            let q = a1.query@;
            lemma_vista_com_as_mesmas_tarefas(Filter::Active, a1.sort, a1.category_filter, q, d0, d);
            lemma_vista_com_as_mesmas_tarefas(Filter::Done, a1.sort, a1.category_filter, q, d0, d);
            lemma_vista_com_as_mesmas_tarefas(a1.filter, a1.sort, a1.category_filter, q, d0, d);
            assert(selecao_na_vista(b));
        } else {
            assert(selecao_na_vista(b));
        }
    }
}

} // verus!
