use todo_ratatui::dominio::store::Store;
use todo_ratatui::tui::app::{App, Efeito, Status};
use todo_ratatui::tui::event::{map_key, Action, CodigoTecla, InputMode, Tecla};
use todo_ratatui::tui::theme::{ModoCor, Theme};

fn app_classico() -> App {
    let store = Store::vazia("/tmp/tr-temas/db.json".to_owned());
    App::com_tema(store, Theme::Classico, Some("/tmp/tr-temas/config.json".to_owned()), ModoCor::Rgb)
}

fn tecla(app: &mut App, c: char) -> Action {
    app.on_key(Tecla::new(CodigoTecla::Char(c))).0
}

fn escapa(app: &mut App) -> Action {
    app.on_key(Tecla::new(CodigoTecla::Esc)).0
}

#[test]
fn t_abre_a_caixa_e_o_t_minusculo_continua_a_alternar_todas() {
    let apertar = |c: char| map_key(&InputMode::Normal, Tecla::new(CodigoTecla::Char(c)));
    assert_eq!(apertar('T'), Action::ThemeView);
    assert_eq!(apertar('t'), Action::ToggleAll);
    assert_ne!(apertar('T'), apertar('t'), "maiúsculas são distintas, como `g`/`G`");
}

#[test]
fn o_t_so_existe_na_lista() {
    let mut app = app_classico();

    tecla(&mut app, 'L');
    assert_eq!(app.mode(), InputMode::Trash);
    assert_eq!(tecla(&mut app, 'T'), Action::Ignore);
    assert_eq!(app.mode(), InputMode::Trash, "o lixo fica onde estava");

    escapa(&mut app);
    tecla(&mut app, 'T');
    assert_eq!(app.mode(), InputMode::Theme);
    assert_eq!(tecla(&mut app, 'T'), Action::Ignore, "não se reabre a caixa");
    assert_eq!(app.mode(), InputMode::Theme);
}

#[test]
fn com_a_caixa_aberta_nenhuma_tecla_da_lista_faz_nada() {
    let mut store = Store::vazia("/tmp/tr-temas/db.json".to_owned());
    for titulo in ["Rever o PR", "Comprar café"] {
        store.add(titulo).expect("adicionar");
    }
    let tema = Theme::por_slug("tokyo-night").expect("slug do catálogo");
    let mut app = App::com_tema(store, tema, Some("/tmp/tr-temas/config.json".to_owned()), ModoCor::Rgb);
    app.selecionada = Some(1);
    let titulos: Vec<String> = app.store().todos().iter().map(|todo| todo.title.clone()).collect();
    let selecao = app.selecionada;
    let filtro = app.filter;
    let ordem = app.sort;
    let lixo = app.store().trash_len();

    tecla(&mut app, 'T');
    for c in ['a', 'e', 'd', 'u', 't', 'c', 's', 'f', 'i', 'x', 'L', '?', 'g', 'G', '1', ' ', '/', 'z'] {
        assert_eq!(tecla(&mut app, c), Action::Ignore, "«{c}» não vale com a caixa aberta");
    }

    assert_eq!(app.mode(), InputMode::Theme, "a caixa fica aberta");
    assert_eq!(
        app.store().todos().iter().map(|todo| todo.title.clone()).collect::<Vec<String>>(),
        titulos,
        "nenhuma tarefa mudou"
    );
    assert_eq!(app.store().trash_len(), lixo, "nada foi para o lixo");
    assert_eq!(app.selecionada, selecao, "a seleção não mexeu");
    assert_eq!(app.filter, filtro);
    assert_eq!(app.sort, ordem);
    assert_eq!(app.status, Status::Idle, "nenhuma mensagem");

    let (_, efeito) = app.on_key(Tecla { codigo: CodigoTecla::Char('c'), ctrl: true, pressao: true });
    assert!(app.should_quit());
    assert_eq!(efeito, Efeito::Nada, "sair com a caixa aberta não grava nada");
}
