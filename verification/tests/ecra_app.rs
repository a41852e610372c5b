use std::time::{Duration, Instant};

use todo_ratatui::dominio::import_export::ExportError;
use todo_ratatui::dominio::model::{Priority, Todo};
use todo_ratatui::dominio::query::Filter;
use todo_ratatui::dominio::store::{Store, StoreError};
use todo_ratatui::tui::app::{App, Efeito, Status, UNDO_HINT};
use todo_ratatui::tui::event::{Action, CodigoTecla, InputMode, Tecla};
use todo_ratatui::tui::theme::{ModoCor, Theme};
use todo_ratatui::tui::ui::{
    barra_de_ajuda, cabecalho, linha_22, linha_de_estado, linha_de_tarefa, textos_do_vazio, Linha22, BARRA,
    BARRA_AJUDA, BARRA_ARMADO, BARRA_INPUT, BARRA_LIXO, BARRA_LIXO_VAZIO, BARRA_UNDO, BARRA_VAZIO,
};

fn app(titulos: &[&str]) -> App {
    let mut store = Store::vazia("/tmp/todo/db.json".to_owned());
    for titulo in titulos {
        store.add(titulo).expect("adicionar");
    }
    App::new(store)
}

fn carrega(app: &mut App, codigo: CodigoTecla) -> Efeito {
    app.on_key(Tecla::new(codigo)).1
}

fn tecla(app: &mut App, c: char) -> Efeito {
    carrega(app, CodigoTecla::Char(c))
}

fn escreve(app: &mut App, texto: &str) {
    for c in texto.chars() {
        tecla(app, c);
    }
}

fn entra(app: &mut App) -> Efeito {
    carrega(app, CodigoTecla::Enter)
}

fn escapa(app: &mut App) -> Efeito {
    carrega(app, CodigoTecla::Esc)
}

fn na_db(app: &App) -> Vec<String> {
    app.store().todos().iter().map(|t| t.title.clone()).collect()
}

fn na_vista(app: &App) -> Vec<String> {
    app.visible().iter().map(|t| t.title.clone()).collect()
}

fn concluir(app: &mut App, titulo: &str) {
    let id = app.store.todos().iter().find(|t| t.title == titulo).expect("tarefa existe").id.clone();
    app.store.toggle_done(&id).expect("concluir");
}

#[test]
fn d_seguido_de_u_repoe_a_tarefa() {
    let mut app = app(&["a", "b", "c"]);
    assert_eq!(app.selected().expect("há selecionada").title, "a");

    tecla(&mut app, 'j');
    assert_eq!(app.selected().unwrap().title, "b");

    assert_eq!(tecla(&mut app, 'd'), Efeito::Gravar);
    assert_eq!(na_db(&app), ["a", "c"]);
    assert_eq!(app.store().trash_len(), 1);
    assert!(
        app.status.text().unwrap().contains("Removida «b»"),
        "a mensagem diz o que saiu: {:?}",
        app.status
    );
    assert!(app.status.text().unwrap().contains(UNDO_HINT));

    assert_eq!(tecla(&mut app, 'u'), Efeito::Gravar);
    assert_eq!(na_db(&app), ["a", "b", "c"], "o undo repõe no índice original");
    assert_eq!(app.store().trash_len(), 0);
    assert!(app.status.text().unwrap().contains("Reposta 1 tarefa"));
}

#[test]
fn abrir_adding_e_cancelar_nao_altera_a_db() {
    let mut app = app(&["a"]);
    tecla(&mut app, 'a');
    assert_eq!(app.mode(), InputMode::Adding);
    escreve(&mut app, "café");
    assert_eq!(app.input(), "café");

    assert_eq!(escapa(&mut app), Efeito::Nada, "nada para gravar");
    assert_eq!(app.mode(), InputMode::Normal);
    assert_eq!(app.input(), "");
    assert_eq!(na_db(&app), ["a"], "cancelar não cria nada");
}

#[test]
fn c_sobre_tres_concluidas_vai_para_o_lixo_e_u_repoe_nos_indices_originais() {
    let mut app = app(&["feita 1", "por fazer", "feita 2", "feita 3"]);
    for titulo in ["feita 1", "feita 2", "feita 3"] {
        concluir(&mut app, titulo);
    }

    tecla(&mut app, 'c');
    assert_eq!(na_db(&app), ["por fazer"]);
    assert_eq!(app.store().trash_len(), 3, "as três num só lote");
    let indices: Vec<usize> = app.store().db().trash.iter().map(|e| e.index).collect();
    assert_eq!(indices, [3, 2, 0], "removidas de trás para a frente: cada índice é o original");
    assert_eq!(app.status.text(), Some("3 concluídas para o lixo  ·  u para desfazer"));

    tecla(&mut app, 'u');
    assert_eq!(
        na_db(&app),
        ["feita 1", "por fazer", "feita 2", "feita 3"],
        "um `u` repõe o lote inteiro nas posições originais"
    );
    assert_eq!(app.store().trash_len(), 0);
}

#[test]
fn adicionar_grava_a_tarefa() {
    let mut app = app(&[]);
    tecla(&mut app, 'a');
    escreve(&mut app, "Comprar café em grão");
    assert_eq!(entra(&mut app), Efeito::Gravar, "a confirmação pede a gravação");

    assert_eq!(app.mode(), InputMode::Normal);
    assert_eq!(na_db(&app), ["Comprar café em grão"]);
    assert_eq!(app.selected().unwrap().title, "Comprar café em grão");
    assert_eq!(app.status.text(), Some("Adicionada «Comprar café em grão»"));
}

#[test]
fn linha_de_texto_tem_cursor() {
    let mut app = app(&[]);
    tecla(&mut app, 'a');
    escreve(&mut app, "abc");
    assert_eq!(app.cursor(), 3);

    carrega(&mut app, CodigoTecla::Left);
    carrega(&mut app, CodigoTecla::Char('X'));
    assert_eq!(app.input(), "abXc", "escreve na posição do cursor");
    assert_eq!(app.cursor(), 3);

    carrega(&mut app, CodigoTecla::Delete);
    assert_eq!(app.input(), "abX");
    carrega(&mut app, CodigoTecla::Home);
    carrega(&mut app, CodigoTecla::Backspace);
    assert_eq!(app.input(), "abX", "no início não há nada para apagar");

    app.on_key(Tecla::com_ctrl(CodigoTecla::Char('u')));
    assert_eq!(app.input(), "", "Ctrl+U limpa a linha");
}

#[test]
fn esc_em_repouso_tira_a_mensagem_e_depois_limpa_busca_e_filtro() {
    let mut app = app(&["café", "netflix"]);
    tecla(&mut app, 'f');
    assert_eq!(app.filter, Filter::Active);

    tecla(&mut app, '/');
    escreve(&mut app, "café");
    entra(&mut app);
    assert_eq!(app.mode(), InputMode::Normal);
    assert_eq!(app.query, "café");
    assert_eq!(na_vista(&app), ["café"]);

    tecla(&mut app, 'd');
    assert!(app.status.text().is_some());

    escapa(&mut app);
    assert_eq!(app.status, Status::Idle, "o primeiro `Esc` tira a mensagem");
    assert_eq!(app.query, "café", "e não toca na busca");
    assert_eq!(app.filter, Filter::Active);

    escapa(&mut app);
    assert!(app.query.is_empty(), "o segundo limpa a busca");
    assert_eq!(app.filter, Filter::All);
    assert!(!app.should_quit(), "`Esc` nunca sai da aplicação");
}

#[test]
fn filtro_nunca_entra_na_vista_do_lixo() {
    let mut app = app(&[]);
    let mut vistos = Vec::new();
    for _ in 0..4 {
        tecla(&mut app, 'f');
        vistos.push(app.filter);
    }
    assert_eq!(
        vistos,
        [Filter::Active, Filter::Done, Filter::All, Filter::Active],
        "o ciclo é All → Active → Done; a vista do lixo é o `L`"
    );
}

#[test]
fn esvaziar_o_lixo_pede_duas_pressoes() {
    let mut app = app(&["a", "b"]);
    tecla(&mut app, 'd');
    tecla(&mut app, 'd');
    assert_eq!(app.store().trash_len(), 2);

    tecla(&mut app, 'L');
    assert_eq!(app.mode(), InputMode::Trash);
    assert_eq!(na_vista(&app), ["b", "a"], "o lixo mostra a remoção recente primeiro");

    assert_eq!(tecla(&mut app, 'c'), Efeito::Nada);
    assert_eq!(app.store().trash_len(), 2, "a primeira pressão só arma");
    assert!(app.armed());
    assert!(app.status.text().unwrap().contains("c outra vez confirma"));

    tecla(&mut app, 'j');
    assert!(!app.armed(), "qualquer outra acção desarma");

    tecla(&mut app, 'c');
    assert!(app.armed());
    assert_eq!(tecla(&mut app, 'c'), Efeito::Gravar);
    assert_eq!(app.store().trash_len(), 0, "a segunda pressão esvazia");
    assert!(!app.armed());
    assert_eq!(app.status.text(), Some("Lixo esvaziado (2 entradas)"));
}

#[test]
fn enter_no_lixo_repoe_a_selecionada_na_posicao_original() {
    let mut app = app(&["a", "b", "c", "d"]);
    tecla(&mut app, 'j');
    tecla(&mut app, 'd');
    tecla(&mut app, 'j');
    tecla(&mut app, 'd');
    assert_eq!(na_db(&app), ["a", "c"]);

    tecla(&mut app, 'L');
    assert_eq!(na_vista(&app), ["d", "b"]);
    tecla(&mut app, 'j');
    assert_eq!(app.selected().unwrap().title, "b");
    entra(&mut app);

    assert_eq!(na_db(&app), ["a", "b", "c"], "«b» volta ao índice 1");
    assert_eq!(app.store().trash_len(), 1, "«d» fica no lixo");
    assert!(app.status.text().unwrap().contains("posição 2"));
    assert_eq!(app.mode(), InputMode::Trash, "restaurar não sai da vista do lixo");
}

#[test]
fn prioridade_e_ordem() {
    let mut app = app(&["primeira", "segunda"]);
    tecla(&mut app, '1');
    assert_eq!(app.store().todos()[0].priority, Priority::High, "«1» é prioridade alta na selecionada");
    assert_eq!(app.status.text(), Some("Prioridade alta em «primeira»"));
    assert_eq!(na_vista(&app), ["primeira", "segunda"]);

    tecla(&mut app, 's');
    assert_eq!(na_vista(&app), ["primeira", "segunda"]);
}

#[test]
fn alternar_todas_vai_e_volta() {
    let mut app = app(&["a", "b"]);
    tecla(&mut app, 't');
    assert!(app.store().todos().iter().all(|t| t.is_done()));
    assert_eq!(app.status.text(), Some("2 tarefas concluídas"));
    tecla(&mut app, 't');
    assert!(app.store().todos().iter().all(|todo| !todo.is_done()));
    assert_eq!(app.status.text(), Some("2 tarefas reabertas"));
}

#[test]
fn alternar_todas_sem_tarefas_nao_faz_nada() {
    let mut app = app(&[]);
    assert_eq!(tecla(&mut app, 't'), Efeito::Nada);
    assert_eq!(app.status.text(), Some("Sem tarefas para alternar"));
}

#[test]
fn selecao_nunca_fica_fora_da_lista() {
    let mut app = app(&["a", "b"]);
    tecla(&mut app, 'j');
    assert_eq!(app.selecionada, Some(1));

    tecla(&mut app, 'd');
    assert_eq!(na_db(&app), ["a"]);
    assert_eq!(app.selecionada, Some(0), "a seleção volta para dentro");

    tecla(&mut app, 'd');
    assert!(na_db(&app).is_empty());
    assert_eq!(app.selecionada, None);
    tecla(&mut app, 'j');
    assert_eq!(app.selecionada, None, "sem lista não há seleção");
}

#[test]
fn exportar_e_importar_pedem_o_caminho() {
    let mut app = app(&["a", "b"]);
    tecla(&mut app, 'x');
    assert_eq!(app.mode(), InputMode::Export);
    escreve(&mut app, " /tmp/tarefas.csv ");
    assert_eq!(entra(&mut app), Efeito::Exportar("/tmp/tarefas.csv".to_owned()));
    app.resultado_da_exportacao(&Ok(2), "/tmp/tarefas.csv");
    assert!(app.status.text().unwrap().contains("Exportadas 2 tarefas"));

    tecla(&mut app, 'i');
    assert_eq!(app.mode(), InputMode::Import);
    escreve(&mut app, "/tmp/tarefas.csv");
    assert_eq!(entra(&mut app), Efeito::Importar("/tmp/tarefas.csv".to_owned()));

    tecla(&mut app, 'i');
    assert_eq!(entra(&mut app), Efeito::Nada, "sem caminho não há nada a fazer");
}

#[test]
fn ajuda_volta_para_a_vista_de_onde_veio() {
    let mut app = app(&["a"]);
    tecla(&mut app, 'L');
    assert_eq!(app.mode(), InputMode::Trash);

    tecla(&mut app, '?');
    assert_eq!(app.mode(), InputMode::Help);
    escapa(&mut app);
    assert_eq!(app.mode(), InputMode::Trash, "a ajuda não fecha a vista do lixo");

    escapa(&mut app);
    assert_eq!(app.mode(), InputMode::Normal, "e o `Esc` seguinte volta à lista");
}

#[test]
fn q_sai_e_esc_nao() {
    let mut app = app(&["a"]);
    escapa(&mut app);
    assert!(!app.should_quit());
    tecla(&mut app, 'q');
    assert!(app.should_quit());
}

#[test]
fn release_e_repeat_nao_chegam_a_mexer_na_db() {
    let mut app = app(&["a"]);
    let solta = Tecla { codigo: CodigoTecla::Char('d'), ctrl: false, pressao: false };
    assert_eq!(app.on_key(solta), (Action::Ignore, Efeito::Nada));
    assert_eq!(na_db(&app), ["a"]);
    assert_eq!(app.store().trash_len(), 0);
}

#[test]
fn gravacao_falhada_mostra_a_faixa_e_nao_deixa_a_selecao_pendurada() {
    let mut app = app(&["a", "b", "c"]);
    tecla(&mut app, 'j');
    tecla(&mut app, 'j');
    assert_eq!(tecla(&mut app, 'd'), Efeito::Gravar);
    app.falha_ao_gravar(StoreError::Io { path: "/tmp/todo/db.json".to_owned(), source: "sem permissão".to_owned() });

    let texto = app.status.text().expect("há mensagem").to_owned();
    assert!(app.status.is_error(), "devia ser erro: {texto}");
    assert!(texto.contains("não gravou") && texto.contains("lista intacta"), "{texto}");
    assert_eq!(na_vista(&app), ["a", "b"], "a mutação fica em memória");
    assert_eq!(app.selecionada, Some(1), "a seleção volta para dentro dos limites");

    tecla(&mut app, '1');
    assert_eq!(app.store().todos()[1].priority, Priority::High);
}

#[test]
fn a_selecao_passa_para_a_tarefa_nova() {
    let mut app = app(&["primeira", "segunda"]);
    concluir(&mut app, "primeira");
    assert_eq!(na_vista(&app), ["segunda", "primeira"]);

    tecla(&mut app, 'a');
    escreve(&mut app, "café");
    entra(&mut app);

    assert_eq!(na_vista(&app), ["segunda", "café", "primeira"], "a nova entra entre a pendente e a concluída");
    assert_eq!(app.selected().map(|todo| todo.title.as_str()), Some("café"), "e é ela que fica selecionada");
    assert_eq!(app.selecionada, Some(1), "a seleção é a linha dela, não o fim da lista");
}

#[test]
fn a_mensagem_de_accao_expira_aos_tres_segundos() {
    let mut app = app(&["a", "b"]);
    let t0 = Instant::now();
    tecla(&mut app, 't');
    assert!(app.status.text().is_some(), "a acção deixa mensagem");

    app.tick(t0);
    assert!(app.status.text().is_some(), "dentro do prazo a mensagem fica");

    app.tick(t0 + Duration::from_secs(3) + Duration::from_millis(200));
    assert_eq!(app.status, Status::Idle, "aos 3 s a mensagem de acção sai sozinha");
}

#[test]
fn o_undo_nao_expira() {
    let mut app = app(&["a", "b"]);
    let t0 = Instant::now();
    tecla(&mut app, 'd');
    assert!(app.status.text().is_some_and(|texto| texto.contains(UNDO_HINT)));
    app.tick(t0 + Duration::from_secs(600));
    assert!(app.status.text().is_some_and(|texto| texto.contains("Removida")));
}

#[test]
fn editar_sem_selecao_diz_porque() {
    let mut app = app(&[]);
    tecla(&mut app, 'e');
    assert_eq!(app.status.text(), Some("Erro: não há nenhuma tarefa selecionada"));
    assert_eq!(app.mode(), InputMode::Normal);
}

#[test]
fn editar_o_titulo_e_a_descricao() {
    let mut app = app(&["velho"]);
    tecla(&mut app, 'e');
    assert_eq!(app.input(), "velho");
    for _ in 0..5 {
        carrega(&mut app, CodigoTecla::Backspace);
    }
    assert_eq!(entra(&mut app), Efeito::Nada, "um título vazio é recusado");
    assert_eq!(app.status.text(), Some("Erro: o título não pode estar vazio"));
    assert_eq!(app.mode(), InputMode::Editing, "a linha fica");
    escreve(&mut app, " novo ");
    assert_eq!(entra(&mut app), Efeito::Gravar);
    assert_eq!(na_db(&app), ["novo"]);
    assert_eq!(app.status.text(), Some("Tarefa editada"));

    app.on_key(Tecla::com_ctrl(CodigoTecla::Char('e')));
    assert!(app.sessao.editing_description());
    escreve(&mut app, "detalhe");
    entra(&mut app);
    assert_eq!(app.store().todos()[0].description, "detalhe");
}

#[test]
fn u_com_o_lixo_vazio_diz_que_nao_ha_nada() {
    let mut app = app(&["a"]);
    assert_eq!(tecla(&mut app, 'u'), Efeito::Nada);
    assert_eq!(app.status.text(), Some("Lixo vazio  ·  nada para repor"));
    assert_eq!(tecla(&mut app, 'c'), Efeito::Nada);
    assert_eq!(app.status.text(), Some("Não há concluídas para limpar"));
}

#[test]
fn a_caixa_de_temas_pede_a_gravacao_da_escolha() {
    let store = Store::vazia("/tmp/todo/db.json".to_owned());
    let mut app = App::com_tema(store, Theme::TokyoNight, Some("/tmp/todo/config.json".to_owned()), ModoCor::Rgb);
    tecla(&mut app, 'T');
    assert_eq!(app.mode(), InputMode::Theme);
    tecla(&mut app, 'j');
    tecla(&mut app, 'j');
    assert_eq!(entra(&mut app), Efeito::GravarTema(Theme::TokyoNightMoon));
    assert_eq!(app.mode(), InputMode::Normal);
    app.resultado_do_tema(Theme::TokyoNightMoon, false);
    assert_eq!(
        app.status.text(),
        Some("Erro: não gravou /tmp/todo/config.json — tema aplicado só nesta sessão")
    );
    app.resultado_do_tema(Theme::TokyoNightMoon, true);
    assert_eq!(app.status.text(), Some("Tema «Tokyo Night Moon» gravado"));
}


#[test]
fn o_cabecalho_conta_as_tarefas_e_o_lixo() {
    let mut app = app(&["a", "b", "c"]);
    concluir(&mut app, "b");
    assert_eq!(cabecalho(&app), "3 tarefas · 2 pendentes · 1 concluídas");
    tecla(&mut app, 'f');
    assert_eq!(cabecalho(&app), "2 de 3 tarefas · 2 pendentes · 1 concluídas");
    tecla(&mut app, 'd');
    tecla(&mut app, 'L');
    assert_eq!(cabecalho(&app), "lixo: 1 de 100");
}

#[test]
fn a_linha_de_estado_mostra_o_que_esta_escondido() {
    let mut app = app(&["café", "netflix"]);
    assert_eq!(linha_de_estado(&app), ("filtro: todas · ordem: prioridade".to_owned(), false, "criada"));
    tecla(&mut app, 's');
    assert_eq!(linha_de_estado(&app).0, "filtro: todas · ordem: estado");
    for _ in 0..5 {
        tecla(&mut app, 's');
    }
    assert_eq!(linha_de_estado(&app).0, "filtro: todas · ordem: prioridade", "o ciclo tem seis ordens");
    tecla(&mut app, 'd');
    tecla(&mut app, '/');
    escreve(&mut app, "café");
    entra(&mut app);
    assert_eq!(
        linha_de_estado(&app),
        ("filtro: todas · ordem: prioridade · busca \"café\" · lixo: 1 (L)".to_owned(), false, "criada")
    );
    tecla(&mut app, 'L');
    assert_eq!(linha_de_estado(&app), ("vista: lixo · ordem: removidas primeiro".to_owned(), false, "removida"));
}

#[test]
fn a_barra_de_ajuda_so_mostra_as_teclas_vivas() {
    let mut app = app(&[]);
    assert_eq!(barra_de_ajuda(&app), BARRA_VAZIO);
    tecla(&mut app, 'a');
    assert_eq!(barra_de_ajuda(&app), BARRA_INPUT);
    escreve(&mut app, "x");
    entra(&mut app);
    assert_eq!(barra_de_ajuda(&app), BARRA);
    tecla(&mut app, 'd');
    assert_eq!(barra_de_ajuda(&app), BARRA_UNDO, "com o undo à vista só resta desfazer");
    tecla(&mut app, 'L');
    assert_eq!(barra_de_ajuda(&app), BARRA_LIXO);
    tecla(&mut app, 'c');
    assert_eq!(barra_de_ajuda(&app), BARRA_ARMADO);
    tecla(&mut app, 'c');
    assert_eq!(barra_de_ajuda(&app), BARRA_LIXO_VAZIO);
    tecla(&mut app, '?');
    assert_eq!(barra_de_ajuda(&app), BARRA_AJUDA);
}

#[test]
fn os_tres_vazios_da_lista() {
    let mut app = app(&[]);
    assert_eq!(textos_do_vazio(&app), ("Sem tarefas.".to_owned(), "a  adicionar a primeira".to_owned()));
    tecla(&mut app, 'L');
    assert_eq!(textos_do_vazio(&app).0, "Lixo vazio.");
    let mut outra = self::app(&["a"]);
    tecla(&mut outra, 'f');
    tecla(&mut outra, 'f');
    assert_eq!(
        textos_do_vazio(&outra).0,
        "Nenhuma tarefa corresponde a: filtro concluídas · busca \"\""
    );
}

#[test]
fn a_linha_22_escolhe_o_que_dizer() {
    let mut app = app(&["a"]);
    assert_eq!(linha_22(&app, true, 79, None), Linha22::Nada);
    tecla(&mut app, 'a');
    assert_eq!(
        linha_22(&app, false, 79, None),
        Linha22::Entrada { rotulo: "Nova", texto: "Título da tarefa…".to_owned(), sugestao: true }
    );
    escapa(&mut app);
    tecla(&mut app, 'd');
    assert_eq!(linha_22(&app, false, 79, None), Linha22::Texto("Removida «a»    u para desfazer".to_owned()));
    escapa(&mut app);
    tecla(&mut app, 'L');
    assert_eq!(
        linha_22(&app, false, 79, None),
        Linha22::Texto("Enter restaura «a» para a posição 1 da lista".to_owned())
    );
}

#[test]
fn a_linha_da_tarefa_alinha_as_colunas() {
    let app = app(&["Comprar café"]);
    let todo = &app.store().todos()[0];
    let l = linha_de_tarefa(todo, "hoje", true, 40);
    assert_eq!(l.prefixo, "▶ ");
    assert_eq!(l.caixa, "[ ] ");
    assert_eq!(l.marca, 'M');
    assert_eq!(l.titulo, "Comprar café");
    assert_eq!(l.espaco, 40 - 8 - 12 - 4);
    let curta = linha_de_tarefa(todo, "hoje", false, 25);
    assert_eq!(curta.prefixo, "  ");
    assert_eq!(curta.titulo, "Com…");
}

#[test]
fn um_export_falhado_diz_o_ficheiro_e_o_motivo() {
    let erro = ExportError::Io { path: "/tmp/x.csv.tmp".to_owned(), source: "sem espaço".to_owned() };
    assert_eq!(erro.mensagem(), "falha de I/O em «/tmp/x.csv.tmp»: sem espaço");
    let csv = ExportError::Csv { path: "/tmp/x.csv".to_owned(), source: "campo".to_owned() };
    assert_eq!(csv.mensagem(), "erro a escrever CSV em «/tmp/x.csv»: campo");

    let mut app = app(&["a"]);
    app.resultado_da_exportacao(&Err(erro), "/tmp/x.csv");
    assert_eq!(app.status, Status::Error("Erro: falha de I/O em «/tmp/x.csv.tmp»: sem espaço".to_owned()));
}

#[test]
fn a_busca_esconde_o_que_nao_encontra_e_diz_quantos_ficam() {
    let mut app = app(&["Comprar café", "ler", "CAFÉ da manhã"]);
    tecla(&mut app, '/');
    escreve(&mut app, "café");
    entra(&mut app);
    assert_eq!(na_vista(&app), ["Comprar café", "CAFÉ da manhã"]);
    assert_eq!(app.status.text(), Some("2 resultados"));
    assert_eq!(cabecalho(&app), "2 de 3 tarefas · 3 pendentes · 0 concluídas");
    escapa(&mut app);
    escapa(&mut app);
    assert_eq!(na_vista(&app), ["Comprar café", "ler", "CAFÉ da manhã"]);
}

#[test]
fn a_ordem_muda_com_s_e_as_concluidas_ficam_no_fim() {
    let mut app = app(&["a", "b", "c"]);
    tecla(&mut app, 'j');
    tecla(&mut app, 'j');
    tecla(&mut app, '1');
    assert_eq!(na_vista(&app), ["c", "a", "b"], "a alta sobe na ordem por prioridade");
    concluir(&mut app, "c");
    assert_eq!(na_vista(&app), ["a", "b", "c"], "as concluídas ficam no fim, cada grupo na sua ordem");
    tecla(&mut app, 's');
    assert_eq!(app.sort, todo_ratatui::dominio::query::SortKey::Status);
}

#[test]
fn o_aviso_de_transbordo_nao_expira() {
    let mut tui = app(&["unica"]);
    {
        let agora = todo_ratatui::dominio::tempo::agora();
        let db = tui.store.db_mut();
        db.trash = (0..todo_ratatui::dominio::ops::TRASH_LIMIT)
            .map(|i| todo_ratatui::dominio::store::Trashed {
                todo: Todo::try_new(&format!("antiga {i}")).expect("título"),
                index: i,
                deleted_at: agora,
                batch: 0,
            })
            .collect();
    }
    let t0 = Instant::now();

    tecla(&mut tui, 'd');
    assert_eq!(tui.store().trash_len(), todo_ratatui::dominio::ops::TRASH_LIMIT, "o lixo fica cheio");
    assert!(
        tui.status.text().is_some_and(|texto| texto.contains("Aviso: 1 entradas")),
        "nada sai em silêncio: {:?}",
        tui.status
    );

    tui.tick(t0 + Duration::from_secs(600));
    assert!(
        tui.status.text().is_some_and(|texto| texto.contains("Aviso:")),
        "o aviso de transbordo é permanente: {:?}",
        tui.status
    );
}

#[test]
fn sair_do_lixo_com_esc_traz_a_selecao_para_dentro_da_lista() {
    let mut app = app(&["a", "b", "c", "d"]);
    for _ in 0..3 {
        tecla(&mut app, 'd');
    }
    assert_eq!(na_db(&app), ["d"]);
    tecla(&mut app, 'L');
    tecla(&mut app, 'j');
    tecla(&mut app, 'j');
    assert_eq!(app.selecionada, Some(2));
    escapa(&mut app);
    assert_eq!(app.mode(), InputMode::Normal);
    assert_eq!(app.selecionada, Some(0), "a seleção não fica fora da lista");
}
