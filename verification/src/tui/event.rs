//! Keys to actions: which action a key is worth in the active mode.
//!
//! Each mode has its own map, and the maps do not leak into each other: in
//! the trash the keys of the list do nothing, with the help, the theme box or
//! the category box open only their own keys count, and in a line of text every key is text
//! except `Enter` and `Esc`. `Ctrl+C` quits in every mode. Only a key press
//! counts: a release or a repeat is worth nothing.

use vstd::prelude::*;

use crate::dominio::model::Priority;

verus! {

/// A key, as the terminal reported it.
#[derive(Debug, Clone, Copy, PartialEq, Eq, Structural)]
pub enum CodigoTecla {
    Char(char),
    Enter,
    Esc,
    Up,
    Down,
    Left,
    Right,
    Home,
    End,
    Backspace,
    Delete,
    Tab,
    F(u8),
    /// Any other key.
    Outra,
}

/// A key event: the key, whether `Ctrl` was held, and whether it is a press
/// (and not a release or a repeat). Other modifiers do not count.
#[derive(Debug, Clone, Copy, PartialEq, Eq, Structural)]
pub struct Tecla {
    pub codigo: CodigoTecla,
    pub ctrl: bool,
    pub pressao: bool,
}

impl Tecla {
    /// A press of `codigo`, without `Ctrl`.
    pub fn new(codigo: CodigoTecla) -> (r: Tecla)
        ensures
            r == (Tecla { codigo, ctrl: false, pressao: true }),
    {
        Tecla { codigo, ctrl: false, pressao: true }
    }

    /// A press of `codigo` with `Ctrl`.
    pub fn com_ctrl(codigo: CodigoTecla) -> (r: Tecla)
        ensures
            r == (Tecla { codigo, ctrl: true, pressao: true }),
    {
        Tecla { codigo, ctrl: true, pressao: true }
    }
}

/// What a key means.
#[derive(Debug, Clone, Copy, PartialEq, Eq, Structural)]
pub enum Action {
    Quit,
    Up,
    Down,
    Home,
    End,
    AddStart,
    EditStart,
    EditDescriptionStart,
    Toggle,
    ToggleAll,
    Trash,
    Restore,
    TrashView,
    ClearCompleted,
    EmptyTrash,
    CycleSort,
    CycleFilter,
    SetPriority(Priority),
    SearchStart,
    DismissMessage,
    ImportStart,
    ExportStart,
    Help,
    ThemeView,
    ThemeMove(isize),
    ThemeConfirm,
    ThemeCancel,
    /// `C`: open the category box.
    CategoryView,
    /// Move the cursor of the category box.
    CategoryMove(isize),
    /// `Enter` in the box: give the selected task the category under the
    /// cursor (or take its category away, on the first line).
    CategoryAssign,
    /// `a` in the box: write the name of a new category.
    CategoryNew,
    /// `e` in the box: write a new name for the category under the cursor.
    CategoryRename,
    /// `d` in the box: delete the category under the cursor (asks twice).
    CategoryDelete,
    /// `F`: the next category filter of the cycle.
    CycleCategoryFilter,
    /// A key for the line of text being written.
    Input(Tecla),
    InputConfirm,
    InputCancel,
    /// No action.
    Ignore,
}

/// The modes of the screen.
#[derive(Debug, Clone, Copy, PartialEq, Eq, Hash, Structural)]
pub enum InputMode {
    Normal,
    Adding,
    Editing,
    Search,
    Import,
    Export,
    Help,
    Theme,
    Trash,
    /// The category box, over the list.
    Category,
    /// The line of the name of a category, opened from the box.
    CategoryName,
}

impl Default for InputMode {
    fn default() -> (r: InputMode)
        ensures
            r == InputMode::Normal,
    {
        InputMode::Normal
    }
}

/// The modes with a line of text open.
pub open spec fn e_texto(m: InputMode) -> bool {
    m is Adding || m is Editing || m is Search || m is Import || m is Export || m is CategoryName
}

pub open spec fn rotulo_do_modo(m: InputMode) -> Seq<char> {
    match m {
        InputMode::Normal => "Normal"@,
        InputMode::Adding => "Nova"@,
        InputMode::Editing => "Editar"@,
        InputMode::Search => "Busca"@,
        InputMode::Import => "Importar"@,
        InputMode::Export => "Exportar"@,
        InputMode::Help => "Ajuda"@,
        InputMode::Theme => "Tema"@,
        InputMode::Trash => "Lixo"@,
        InputMode::Category => "Categorias"@,
        InputMode::CategoryName => "Nova categoria"@,
    }
}

pub open spec fn sugestao_do_modo(m: InputMode) -> Seq<char> {
    match m {
        InputMode::Adding | InputMode::Editing => "Título da tarefa…"@,
        InputMode::Search => "Buscar…"@,
        InputMode::Import => "Caminho do ficheiro a importar…"@,
        InputMode::Export => "Caminho do ficheiro a exportar…"@,
        InputMode::CategoryName => "Nome da categoria…"@,
        _ => ""@,
    }
}

impl InputMode {
    /// Whether the mode has a line of text open.
    pub fn is_text(self) -> (r: bool)
        ensures
            r == e_texto(self),
    {
        match self {
            InputMode::Adding | InputMode::Editing | InputMode::Search | InputMode::Import
            | InputMode::Export | InputMode::CategoryName => true,
            _ => false,
        }
    }

    /// The name of the mode, as the line of text shows it.
    pub fn label(self) -> (r: &'static str)
        ensures
            r@ == rotulo_do_modo(self),
    {
        match self {
            InputMode::Normal => "Normal",
            InputMode::Adding => "Nova",
            InputMode::Editing => "Editar",
            InputMode::Search => "Busca",
            InputMode::Import => "Importar",
            InputMode::Export => "Exportar",
            InputMode::Help => "Ajuda",
            InputMode::Theme => "Tema",
            InputMode::Trash => "Lixo",
            InputMode::Category => "Categorias",
            InputMode::CategoryName => "Nova categoria",
        }
    }

    /// What the empty line of text shows.
    pub fn placeholder(self) -> (r: &'static str)
        ensures
            r@ == sugestao_do_modo(self),
    {
        match self {
            InputMode::Adding | InputMode::Editing => "Título da tarefa…",
            InputMode::Search => "Buscar…",
            InputMode::Import => "Caminho do ficheiro a importar…",
            InputMode::Export => "Caminho do ficheiro a exportar…",
            InputMode::CategoryName => "Nome da categoria…",
            _ => "",
        }
    }
}

/// The map of the list.
pub open spec fn acao_normal(t: Tecla) -> Action {
    if t.ctrl {
        if t.codigo == CodigoTecla::Char('e') {
            Action::EditDescriptionStart
        } else {
            Action::Ignore
        }
    } else {
        match t.codigo {
            CodigoTecla::Char(c) => if c == 'q' {
                Action::Quit
            } else if c == 'j' {
                Action::Down
            } else if c == 'k' {
                Action::Up
            } else if c == 'g' {
                Action::Home
            } else if c == 'G' {
                Action::End
            } else if c == ' ' {
                Action::Toggle
            } else if c == 'a' {
                Action::AddStart
            } else if c == 'e' {
                Action::EditStart
            } else if c == 'd' {
                Action::Trash
            } else if c == 'u' {
                Action::Restore
            } else if c == '1' {
                Action::SetPriority(Priority::High)
            } else if c == '2' {
                Action::SetPriority(Priority::Medium)
            } else if c == '3' {
                Action::SetPriority(Priority::Low)
            } else if c == 's' {
                Action::CycleSort
            } else if c == 'f' {
                Action::CycleFilter
            } else if c == '/' {
                Action::SearchStart
            } else if c == 't' {
                Action::ToggleAll
            } else if c == 'c' {
                Action::ClearCompleted
            } else if c == 'i' {
                Action::ImportStart
            } else if c == 'x' {
                Action::ExportStart
            } else if c == 'L' {
                Action::TrashView
            } else if c == 'T' {
                Action::ThemeView
            } else if c == 'C' {
                Action::CategoryView
            } else if c == 'F' {
                Action::CycleCategoryFilter
            } else if c == '?' {
                Action::Help
            } else {
                Action::Ignore
            },
            CodigoTecla::Down => Action::Down,
            CodigoTecla::Up => Action::Up,
            CodigoTecla::Enter => Action::Toggle,
            CodigoTecla::Esc => Action::DismissMessage,
            _ => Action::Ignore,
        }
    }
}

/// The map of the trash: navigation, restore, empty (which asks twice),
/// back and help.
pub open spec fn acao_do_lixo(t: Tecla) -> Action {
    if t.ctrl {
        Action::Ignore
    } else {
        match t.codigo {
            CodigoTecla::Char(c) => if c == 'j' {
                Action::Down
            } else if c == 'k' {
                Action::Up
            } else if c == 'g' {
                Action::Home
            } else if c == 'G' {
                Action::End
            } else if c == ' ' {
                Action::Restore
            } else if c == 'c' {
                Action::EmptyTrash
            } else if c == '?' {
                Action::Help
            } else {
                Action::Ignore
            },
            CodigoTecla::Down => Action::Down,
            CodigoTecla::Up => Action::Up,
            CodigoTecla::Enter => Action::Restore,
            CodigoTecla::Esc => Action::InputCancel,
            _ => Action::Ignore,
        }
    }
}

/// The map of the theme box: move, confirm, cancel.
pub open spec fn acao_da_caixa(t: Tecla) -> Action {
    if t.ctrl {
        Action::Ignore
    } else {
        match t.codigo {
            CodigoTecla::Char(c) => if c == 'j' {
                Action::ThemeMove(1isize)
            } else if c == 'k' {
                Action::ThemeMove(-1isize)
            } else if c == 'q' {
                Action::ThemeCancel
            } else {
                Action::Ignore
            },
            CodigoTecla::Down => Action::ThemeMove(1isize),
            CodigoTecla::Up => Action::ThemeMove(-1isize),
            CodigoTecla::Enter => Action::ThemeConfirm,
            CodigoTecla::Esc => Action::ThemeCancel,
            _ => Action::Ignore,
        }
    }
}

/// The map of the category box: move, top and end, assign, new, rename,
/// delete (which asks twice), close.
pub open spec fn acao_das_categorias(t: Tecla) -> Action {
    if t.ctrl {
        Action::Ignore
    } else {
        match t.codigo {
            CodigoTecla::Char(c) => if c == 'j' {
                Action::CategoryMove(1isize)
            } else if c == 'k' {
                Action::CategoryMove(-1isize)
            } else if c == 'g' {
                Action::Home
            } else if c == 'G' {
                Action::End
            } else if c == 'a' {
                Action::CategoryNew
            } else if c == 'e' {
                Action::CategoryRename
            } else if c == 'd' {
                Action::CategoryDelete
            } else if c == 'q' {
                Action::InputCancel
            } else {
                Action::Ignore
            },
            CodigoTecla::Down => Action::CategoryMove(1isize),
            CodigoTecla::Up => Action::CategoryMove(-1isize),
            CodigoTecla::Enter => Action::CategoryAssign,
            CodigoTecla::Esc => Action::InputCancel,
            _ => Action::Ignore,
        }
    }
}

/// The map of the help: only `?`, `q` and `Esc`, which close it.
pub open spec fn acao_da_ajuda(t: Tecla) -> Action {
    if !t.ctrl && (t.codigo == CodigoTecla::Char('?') || t.codigo == CodigoTecla::Char('q')
        || t.codigo == CodigoTecla::Esc) {
        Action::InputCancel
    } else {
        Action::Ignore
    }
}

/// The action a key is worth in a mode.
pub open spec fn acao(m: InputMode, t: Tecla) -> Action {
    if !t.pressao {
        Action::Ignore
    } else if t.ctrl && t.codigo == CodigoTecla::Char('c') {
        Action::Quit
    } else if e_texto(m) {
        if t.codigo == CodigoTecla::Enter {
            Action::InputConfirm
        } else if t.codigo == CodigoTecla::Esc {
            Action::InputCancel
        } else {
            Action::Input(t)
        }
    } else {
        match m {
            InputMode::Help => acao_da_ajuda(t),
            InputMode::Theme => acao_da_caixa(t),
            InputMode::Trash => acao_do_lixo(t),
            InputMode::Category => acao_das_categorias(t),
            _ => acao_normal(t),
        }
    }
}

fn map_normal(t: Tecla) -> (r: Action)
    ensures
        r == acao_normal(t),
{
    if t.ctrl {
        return match t.codigo {
            CodigoTecla::Char('e') => Action::EditDescriptionStart,
            _ => Action::Ignore,
        };
    }
    match t.codigo {
        CodigoTecla::Char('q') => Action::Quit,
        CodigoTecla::Char('j') | CodigoTecla::Down => Action::Down,
        CodigoTecla::Char('k') | CodigoTecla::Up => Action::Up,
        CodigoTecla::Char('g') => Action::Home,
        CodigoTecla::Char('G') => Action::End,
        CodigoTecla::Char(' ') | CodigoTecla::Enter => Action::Toggle,
        CodigoTecla::Char('a') => Action::AddStart,
        CodigoTecla::Char('e') => Action::EditStart,
        CodigoTecla::Char('d') => Action::Trash,
        CodigoTecla::Char('u') => Action::Restore,
        CodigoTecla::Char('1') => Action::SetPriority(Priority::High),
        CodigoTecla::Char('2') => Action::SetPriority(Priority::Medium),
        CodigoTecla::Char('3') => Action::SetPriority(Priority::Low),
        CodigoTecla::Char('s') => Action::CycleSort,
        CodigoTecla::Char('f') => Action::CycleFilter,
        CodigoTecla::Char('/') => Action::SearchStart,
        CodigoTecla::Char('t') => Action::ToggleAll,
        CodigoTecla::Char('c') => Action::ClearCompleted,
        CodigoTecla::Char('i') => Action::ImportStart,
        CodigoTecla::Char('x') => Action::ExportStart,
        CodigoTecla::Char('L') => Action::TrashView,
        CodigoTecla::Char('T') => Action::ThemeView,
        CodigoTecla::Char('C') => Action::CategoryView,
        CodigoTecla::Char('F') => Action::CycleCategoryFilter,
        CodigoTecla::Char('?') => Action::Help,
        CodigoTecla::Esc => Action::DismissMessage,
        _ => Action::Ignore,
    }
}

fn map_trash(t: Tecla) -> (r: Action)
    ensures
        r == acao_do_lixo(t),
{
    if t.ctrl {
        return Action::Ignore;
    }
    match t.codigo {
        CodigoTecla::Char('j') | CodigoTecla::Down => Action::Down,
        CodigoTecla::Char('k') | CodigoTecla::Up => Action::Up,
        CodigoTecla::Char('g') => Action::Home,
        CodigoTecla::Char('G') => Action::End,
        CodigoTecla::Enter | CodigoTecla::Char(' ') => Action::Restore,
        CodigoTecla::Char('c') => Action::EmptyTrash,
        CodigoTecla::Esc => Action::InputCancel,
        CodigoTecla::Char('?') => Action::Help,
        _ => Action::Ignore,
    }
}

fn map_theme(t: Tecla) -> (r: Action)
    ensures
        r == acao_da_caixa(t),
{
    if t.ctrl {
        return Action::Ignore;
    }
    match t.codigo {
        CodigoTecla::Char('j') | CodigoTecla::Down => Action::ThemeMove(1),
        CodigoTecla::Char('k') | CodigoTecla::Up => Action::ThemeMove(-1),
        CodigoTecla::Enter => Action::ThemeConfirm,
        CodigoTecla::Esc | CodigoTecla::Char('q') => Action::ThemeCancel,
        _ => Action::Ignore,
    }
}

fn map_categories(t: Tecla) -> (r: Action)
    ensures
        r == acao_das_categorias(t),
{
    if t.ctrl {
        return Action::Ignore;
    }
    match t.codigo {
        CodigoTecla::Char('j') | CodigoTecla::Down => Action::CategoryMove(1),
        CodigoTecla::Char('k') | CodigoTecla::Up => Action::CategoryMove(-1),
        CodigoTecla::Char('g') => Action::Home,
        CodigoTecla::Char('G') => Action::End,
        CodigoTecla::Enter => Action::CategoryAssign,
        CodigoTecla::Char('a') => Action::CategoryNew,
        CodigoTecla::Char('e') => Action::CategoryRename,
        CodigoTecla::Char('d') => Action::CategoryDelete,
        CodigoTecla::Esc | CodigoTecla::Char('q') => Action::InputCancel,
        _ => Action::Ignore,
    }
}

fn map_help(t: Tecla) -> (r: Action)
    ensures
        r == acao_da_ajuda(t),
{
    if t.ctrl {
        return Action::Ignore;
    }
    match t.codigo {
        CodigoTecla::Char('?') | CodigoTecla::Char('q') | CodigoTecla::Esc => Action::InputCancel,
        _ => Action::Ignore,
    }
}

/// The action `tecla` is worth in `mode`.
pub fn map_key(mode: &InputMode, tecla: Tecla) -> (r: Action)
    ensures
        r == acao(*mode, tecla),
        !tecla.pressao ==> r == Action::Ignore,
        tecla.pressao && tecla.ctrl && tecla.codigo == CodigoTecla::Char('c') ==> r == Action::Quit,
        r == Action::Quit ==> tecla.pressao && ((tecla.ctrl && tecla.codigo == CodigoTecla::Char('c'))
            || (*mode == InputMode::Normal && !tecla.ctrl && tecla.codigo == CodigoTecla::Char('q'))),
        e_texto(*mode) && tecla.pressao && !(tecla.ctrl && tecla.codigo == CodigoTecla::Char('c'))
            && tecla.codigo != CodigoTecla::Enter && tecla.codigo != CodigoTecla::Esc ==> r
            == Action::Input(tecla),
        r == Action::ThemeView ==> *mode == InputMode::Normal && tecla == Tecla::new_spec(
            CodigoTecla::Char('T'),
        ),
{
    if !tecla.pressao {
        return Action::Ignore;
    }
    if tecla.ctrl && tecla.codigo == CodigoTecla::Char('c') {
        return Action::Quit;
    }
    if mode.is_text() {
        return match tecla.codigo {
            CodigoTecla::Enter => Action::InputConfirm,
            CodigoTecla::Esc => Action::InputCancel,
            _ => Action::Input(tecla),
        };
    }
    match mode {
        InputMode::Help => map_help(tecla),
        InputMode::Theme => map_theme(tecla),
        InputMode::Trash => map_trash(tecla),
        InputMode::Category => map_categories(tecla),
        _ => map_normal(tecla),
    }
}

impl Tecla {
    pub open spec fn new_spec(codigo: CodigoTecla) -> Tecla {
        Tecla { codigo, ctrl: false, pressao: true }
    }
}

} // verus!
