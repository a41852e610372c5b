use todo_ratatui::dominio::model::Priority;
use todo_ratatui::tui::event::{map_key, Action, CodigoTecla, InputMode, Tecla};

fn press(codigo: CodigoTecla) -> Tecla {
    Tecla::new(codigo)
}

fn press_ctrl(codigo: CodigoTecla) -> Tecla {
    Tecla::com_ctrl(codigo)
}

fn acao(mode: InputMode, tecla: Tecla) -> Action {
    map_key(&mode, tecla)
}

fn atalho(c: char) -> Action {
    acao(InputMode::Normal, press(CodigoTecla::Char(c)))
}

#[test]
fn normal_mapeia_a_tabela_do_designer() {
    let esperado = [
        (CodigoTecla::Char('q'), Action::Quit),
        (CodigoTecla::Char('j'), Action::Down),
        (CodigoTecla::Char('k'), Action::Up),
        (CodigoTecla::Char('g'), Action::Home),
        (CodigoTecla::Char('G'), Action::End),
        (CodigoTecla::Char('a'), Action::AddStart),
        (CodigoTecla::Char('e'), Action::EditStart),
        (CodigoTecla::Char('d'), Action::Trash),
        (CodigoTecla::Char('u'), Action::Restore),
        (CodigoTecla::Char('1'), Action::SetPriority(Priority::High)),
        (CodigoTecla::Char('2'), Action::SetPriority(Priority::Medium)),
        (CodigoTecla::Char('3'), Action::SetPriority(Priority::Low)),
        (CodigoTecla::Char('s'), Action::CycleSort),
        (CodigoTecla::Char('f'), Action::CycleFilter),
        (CodigoTecla::Char('/'), Action::SearchStart),
        (CodigoTecla::Char('t'), Action::ToggleAll),
        (CodigoTecla::Char('c'), Action::ClearCompleted),
        (CodigoTecla::Char('i'), Action::ImportStart),
        (CodigoTecla::Char('x'), Action::ExportStart),
        (CodigoTecla::Char('L'), Action::TrashView),
        (CodigoTecla::Char('?'), Action::Help),
    ];
    for (code, esperada) in esperado {
        assert_eq!(acao(InputMode::Normal, press(code)), esperada, "{code:?}");
    }
}

#[test]
fn normal_mapeia_as_teclas_de_navegacao_e_espaco() {
    for (code, esperada) in [
        (CodigoTecla::Down, Action::Down),
        (CodigoTecla::Up, Action::Up),
        (CodigoTecla::Char(' '), Action::Toggle),
        (CodigoTecla::Enter, Action::Toggle),
    ] {
        assert_eq!(acao(InputMode::Normal, press(code)), esperada, "{code:?}");
    }
}

#[test]
fn esc_em_repouso_limpa_a_mensagem_e_nao_sai() {
    let esc = acao(InputMode::Normal, press(CodigoTecla::Esc));
    assert_eq!(esc, Action::DismissMessage);
    assert_ne!(esc, Action::Quit, "o reflexo de cancelar não fecha o programa");
}

#[test]
fn ctrl_c_sai_em_todos_os_modos() {
    for mode in [
        InputMode::Normal,
        InputMode::Adding,
        InputMode::Editing,
        InputMode::Search,
        InputMode::Import,
        InputMode::Export,
        InputMode::Help,
        InputMode::Theme,
        InputMode::Trash,
    ] {
        assert_eq!(acao(mode, press_ctrl(CodigoTecla::Char('c'))), Action::Quit, "Ctrl+C em {mode:?}");
    }
}

#[test]
fn ctrl_e_abre_a_descricao() {
    assert_eq!(acao(InputMode::Normal, press_ctrl(CodigoTecla::Char('e'))), Action::EditDescriptionStart);
    assert_eq!(atalho('e'), Action::EditStart, "sem `Ctrl` a tecla é o título, não a descrição");
}

#[test]
fn modos_de_texto_mandam_a_tecla_crua_para_o_buffer() {
    for mode in [InputMode::Adding, InputMode::Editing, InputMode::Search, InputMode::Import, InputMode::Export] {
        assert_eq!(acao(mode, press(CodigoTecla::Enter)), Action::InputConfirm, "{mode:?}");
        assert_eq!(acao(mode, press(CodigoTecla::Esc)), Action::InputCancel, "{mode:?}");
        for c in ['q', 'd', 'j', '1', '?', 'L', ' '] {
            assert_eq!(
                acao(mode, press(CodigoTecla::Char(c))),
                Action::Input(press(CodigoTecla::Char(c))),
                "«{c}» em {mode:?} tem de ser texto"
            );
        }
        assert_eq!(acao(mode, press(CodigoTecla::Backspace)), Action::Input(press(CodigoTecla::Backspace)));
        assert_eq!(
            acao(mode, press_ctrl(CodigoTecla::Char('u'))),
            Action::Input(press_ctrl(CodigoTecla::Char('u'))),
            "Ctrl+U vai para o buffer"
        );
    }
}

#[test]
fn ajuda_so_fecha_com_tres_teclas() {
    for code in [CodigoTecla::Esc, CodigoTecla::Char('q'), CodigoTecla::Char('?')] {
        assert_eq!(acao(InputMode::Help, press(code)), Action::InputCancel, "{code:?}");
    }
    for c in ['j', 'k', 'd', 'a', 'h', 'c'] {
        assert_eq!(acao(InputMode::Help, press(CodigoTecla::Char(c))), Action::Ignore, "«{c}»");
    }
}

#[test]
fn t_maiusculo_abre_a_caixa_e_nao_colide_com_a_tabela() {
    assert_eq!(atalho('T'), Action::ThemeView);
    assert_eq!(atalho('t'), Action::ToggleAll, "`t` minúsculo continua a alternar todas");

    let mut teclas: Vec<char> = ('a'..='z').chain('A'..='Z').chain('0'..='9').filter(|c| *c != 'T').collect();
    teclas.extend([
        '/', '?', ' ', '!', '@', '#', '$', '%', '^', '&', '*', '(', ')', '-', '_', '=', '+', '[', ']', '{', '}',
        '\\', '|', '\'', '"', '`', '~', '<', '>', ',', '.', ';', ':',
    ]);
    for c in teclas {
        assert_ne!(atalho(c), Action::ThemeView, "«{c}» não pode abrir a caixa de temas");
    }
    for code in [
        CodigoTecla::Down,
        CodigoTecla::Up,
        CodigoTecla::Enter,
        CodigoTecla::Esc,
        CodigoTecla::Backspace,
        CodigoTecla::Delete,
        CodigoTecla::Home,
        CodigoTecla::End,
        CodigoTecla::Tab,
        CodigoTecla::F(1),
    ] {
        assert_ne!(acao(InputMode::Normal, press(code)), Action::ThemeView, "{code:?}");
    }
}

#[test]
fn caixa_de_temas_tem_mapa_proprio() {
    let esperado = [
        (CodigoTecla::Char('j'), Action::ThemeMove(1)),
        (CodigoTecla::Down, Action::ThemeMove(1)),
        (CodigoTecla::Char('k'), Action::ThemeMove(-1)),
        (CodigoTecla::Up, Action::ThemeMove(-1)),
        (CodigoTecla::Enter, Action::ThemeConfirm),
        (CodigoTecla::Esc, Action::ThemeCancel),
        (CodigoTecla::Char('q'), Action::ThemeCancel),
    ];
    for (code, esperada) in esperado {
        assert_eq!(acao(InputMode::Theme, press(code)), esperada, "{code:?}");
    }
    for c in ['a', 'e', 'd', 'u', 't', 'c', 's', 'f', 'i', 'x', 'L', 'T', '?', 'g', 'G', '1', ' ', '/', 'z'] {
        assert_eq!(acao(InputMode::Theme, press(CodigoTecla::Char(c))), Action::Ignore, "«{c}»");
    }
}

#[test]
fn lixo_tem_mapa_proprio() {
    let esperado = [
        (CodigoTecla::Char('j'), Action::Down),
        (CodigoTecla::Char('k'), Action::Up),
        (CodigoTecla::Char('g'), Action::Home),
        (CodigoTecla::Char('G'), Action::End),
        (CodigoTecla::Enter, Action::Restore),
        (CodigoTecla::Char(' '), Action::Restore),
        (CodigoTecla::Char('c'), Action::EmptyTrash),
        (CodigoTecla::Esc, Action::InputCancel),
        (CodigoTecla::Char('?'), Action::Help),
    ];
    for (code, esperada) in esperado {
        assert_eq!(acao(InputMode::Trash, press(code)), esperada, "{code:?}");
    }
    for c in ['u', 'a', 'e', 'd', '1', 't', 's', 'f', 'i', 'x', 'q'] {
        assert_eq!(acao(InputMode::Trash, press(CodigoTecla::Char(c))), Action::Ignore, "«{c}»");
    }
}

#[test]
fn release_e_repeat_nao_disparam_nada() {
    let solta = Tecla { codigo: CodigoTecla::Char('d'), ctrl: false, pressao: false };
    for mode in [InputMode::Normal, InputMode::Trash, InputMode::Adding] {
        assert_eq!(acao(mode, solta), Action::Ignore, "{mode:?}");
    }
}

#[test]
fn teclas_desconhecidas_dao_ignore() {
    assert_eq!(atalho('z'), Action::Ignore);
    assert_eq!(atalho('Q'), Action::Ignore, "`Q` não é `q`: maiúsculas são distintas");
    assert_eq!(acao(InputMode::Normal, press(CodigoTecla::F(1))), Action::Ignore);
    assert_eq!(acao(InputMode::Normal, press_ctrl(CodigoTecla::Char('z'))), Action::Ignore);
    assert_eq!(
        acao(InputMode::Normal, press(CodigoTecla::Char('j'))),
        Action::Down,
        "um modificador que não é `Ctrl` não conta: a tecla vale o mesmo"
    );
}

#[test]
fn modos_tem_rotulo_e_sugestao() {
    assert!(InputMode::Adding.is_text());
    assert!(!InputMode::Trash.is_text());
    assert_eq!(InputMode::Search.label(), "Busca");
    assert_eq!(InputMode::Trash.label(), "Lixo");
    assert_eq!(InputMode::Adding.placeholder(), "Título da tarefa…");
    assert_eq!(InputMode::Import.placeholder(), "Caminho do ficheiro a importar…");
    assert_eq!(InputMode::Normal.placeholder(), "");
    assert_eq!(InputMode::default(), InputMode::Normal);
}
