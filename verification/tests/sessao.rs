use std::time::{Duration, Instant};

use todo_ratatui::dominio::import_export::ImportReport;
use todo_ratatui::dominio::model::TodoId;
use todo_ratatui::dominio::ops::OpsError;
use todo_ratatui::dominio::store::StoreError;
use todo_ratatui::tui::app::{
    clamp_selection, erro, erro_de_nome, erro_tema_nao_gravado, mensagem_da_importacao,
    mensagem_tema_gravado, move_selection, select_index, Sessao, Status,
};
use todo_ratatui::tui::event::{map_key, Action, CodigoTecla, InputMode, Tecla};
use todo_ratatui::tui::theme::{ModoCor, Theme};

fn escreve(s: &mut Sessao, texto: &str) {
    for c in texto.chars() {
        s.edit_buffer(Tecla::new(CodigoTecla::Char(c)));
    }
}

fn carrega(s: &mut Sessao, codigo: CodigoTecla) {
    s.edit_buffer(Tecla::new(codigo));
}

#[test]
fn a_sessao_edita_a_linha_no_cursor() {
    let mut s = Sessao::new();
    s.open_line(InputMode::Adding, "", false);
    escreve(&mut s, "abc");
    assert_eq!(s.cursor(), 3);

    carrega(&mut s, CodigoTecla::Left);
    carrega(&mut s, CodigoTecla::Char('X'));
    assert_eq!(s.input(), "abXc", "escreve na posição do cursor");
    assert_eq!(s.cursor(), 3);

    carrega(&mut s, CodigoTecla::Delete);
    assert_eq!(s.input(), "abX");
    carrega(&mut s, CodigoTecla::Home);
    carrega(&mut s, CodigoTecla::Backspace);
    assert_eq!(s.input(), "abX", "no início não há nada para apagar");

    s.edit_buffer(Tecla::com_ctrl(CodigoTecla::Char('u')));
    assert_eq!(s.input(), "", "Ctrl+U limpa a linha");
    assert_eq!(s.cursor(), 0);
}

#[test]
fn a_linha_abre_com_o_texto_e_o_cursor_no_fim() {
    let mut s = Sessao::new();
    s.open_line(InputMode::Editing, "Comprar café", true);
    assert_eq!(s.mode(), InputMode::Editing);
    assert_eq!(s.input(), "Comprar café");
    assert_eq!(s.cursor(), 12);
    assert!(s.editing_description());

    carrega(&mut s, CodigoTecla::Right);
    assert_eq!(s.cursor(), 12, "o cursor não passa do fim");
    carrega(&mut s, CodigoTecla::Backspace);
    assert_eq!(s.input(), "Comprar caf");
    carrega(&mut s, CodigoTecla::End);
    assert_eq!(s.cursor(), 11);
    s.edit_buffer(Tecla::com_ctrl(CodigoTecla::Char('a')));
    assert_eq!(s.input(), "Comprar caf", "outro Ctrl não faz nada");

    s.close_line();
    assert_eq!(s.mode(), InputMode::Normal);
    assert_eq!(s.input(), "");
    assert_eq!(s.cursor(), 0);
    assert!(!s.editing_description());
}

#[test]
fn a_sessao_volta_da_ajuda_para_a_vista() {
    let mut s = Sessao::new();
    s.open_line(InputMode::Trash, "", false);
    assert_eq!(s.mode(), InputMode::Trash);

    s.abrir_ajuda();
    assert_eq!(s.mode(), InputMode::Help);
    assert_eq!(s.context(), InputMode::Trash, "por baixo da ajuda está o lixo");
    s.cancelar();
    assert_eq!(s.mode(), InputMode::Trash, "a ajuda não fecha a vista do lixo");

    s.cancelar();
    assert_eq!(s.mode(), InputMode::Normal, "e o `Esc` seguinte volta à lista");
}

#[test]
fn a_sessao_so_sai_quando_se_pede() {
    let mut s = Sessao::new();
    s.cancelar();
    assert!(!s.should_quit());
    s.quit();
    assert!(s.should_quit());
}

#[test]
fn esc_depois_de_navegar_nao_toca_no_ficheiro_nem_no_tema() {
    let mut s = Sessao::com_tema(Theme::TokyoNightMoon, ModoCor::Rgb);
    s.abrir_caixa_de_temas();
    assert_eq!(s.mode(), InputMode::Theme);
    assert_eq!(s.theme().slug(), "tokyo-night-moon", "abre no tema em uso");
    assert_eq!(s.theme_cursor(), 2, "com o cursor na posição do tema em uso");

    s.mover_na_caixa_de_temas(1);
    assert_eq!(s.theme().slug(), "classico", "pré-visualização ao vivo");
    assert_eq!(s.theme_cursor(), 3);
    s.mover_na_caixa_de_temas(-1);
    assert_eq!(s.theme_cursor(), 2, "volta ao tema de entrada");
    s.mover_na_caixa_de_temas(-1);
    assert_eq!(s.theme().slug(), "tokyo-night-storm");

    s.cancelar_tema();
    assert_eq!(s.mode(), InputMode::Normal);
    assert_eq!(s.theme().slug(), "tokyo-night-moon", "o `Esc` repõe o tema de entrada");
}

#[test]
fn dois_j_e_enter_gravam_o_slug_e_aplicam_o_tema() {
    let mut s = Sessao::com_tema(Theme::TokyoNight, ModoCor::Rgb);
    s.abrir_caixa_de_temas();
    s.mover_na_caixa_de_temas(1);
    s.mover_na_caixa_de_temas(1);
    assert_eq!(s.theme_cursor(), 2);
    assert_eq!(s.theme().slug(), "tokyo-night-moon", "pré-visualização ao vivo");

    let gravar = s.confirmar_tema(true);

    assert_eq!(s.mode(), InputMode::Normal, "o `Enter` fecha a caixa");
    assert_eq!(s.theme().slug(), "tokyo-night-moon", "o tema fica aplicado");
    assert_eq!(gravar.map(|t| t.slug()), Some("tokyo-night-moon"), "o slug do cursor");
    let estado = mensagem_tema_gravado(gravar.expect("há escolha"));
    assert!(!estado.is_error(), "gravar não é erro: {:?}", estado);
    assert_eq!(estado.text(), Some("Tema «Tokyo Night Moon» gravado"));
}

#[test]
fn as_setas_navegam_e_o_enter_sem_navegar_grava_o_mesmo_tema() {
    let mut s = Sessao::com_tema(Theme::TokyoNightStorm, ModoCor::Rgb);
    s.abrir_caixa_de_temas();
    let abaixo = map_key(&s.mode(), Tecla::new(CodigoTecla::Down));
    let acima = map_key(&s.mode(), Tecla::new(CodigoTecla::Up));
    assert_eq!(abaixo, Action::ThemeMove(1));
    assert_eq!(acima, Action::ThemeMove(-1));
    s.mover_na_caixa_de_temas(1);
    assert_eq!(s.theme().slug(), "tokyo-night-moon", "↓ anda para a frente");
    s.mover_na_caixa_de_temas(-1);
    assert_eq!(s.theme().slug(), "tokyo-night-storm", "↑ anda para trás");

    assert_eq!(s.confirmar_tema(true), Some(Theme::TokyoNightStorm));
    assert_eq!(s.theme(), Theme::TokyoNightStorm);
}

#[test]
fn cancelar_repoe_exactamente_o_tema_de_entrada() {
    let mut s = Sessao::com_tema(Theme::TokyoNightStorm, ModoCor::Rgb);
    s.abrir_caixa_de_temas();
    s.mover_na_caixa_de_temas(1);
    s.mover_na_caixa_de_temas(1);
    s.mover_na_caixa_de_temas(1);
    s.mover_na_caixa_de_temas(-1);
    assert_ne!(s.theme().slug(), "tokyo-night-storm", "navegou");

    s.cancelar_tema();

    assert_eq!(s.mode(), InputMode::Normal, "fecha a caixa");
    assert_eq!(s.theme().slug(), "tokyo-night-storm", "repõe o tema de entrada");
    assert_eq!(s.theme_cursor(), 1, "o cursor volta à posição do tema aplicado");
    assert!(!s.should_quit(), "fechar a caixa não sai da aplicação");
}

#[test]
fn o_cursor_da_caixa_nao_da_a_volta() {
    let mut s = Sessao::com_tema(Theme::Classico, ModoCor::Rgb);
    assert_eq!(s.theme_cursor(), 3, "o clássico é o último");

    s.abrir_caixa_de_temas();
    for _ in 0..5 {
        s.mover_na_caixa_de_temas(1);
    }
    assert_eq!(s.theme_cursor(), 3, "para no último");
    assert_eq!(s.theme().slug(), "classico");

    for _ in 0..9 {
        s.mover_na_caixa_de_temas(-1);
    }
    assert_eq!(s.theme_cursor(), 0, "e para no primeiro");
    assert_eq!(s.theme().slug(), "tokyo-night");
}

#[test]
fn sem_caminho_de_config_o_enter_aplica_o_tema_e_nao_grava_nada() {
    let mut s = Sessao::new();
    s.abrir_caixa_de_temas();
    s.mover_na_caixa_de_temas(1);
    assert_eq!(s.confirmar_tema(false), None, "sem ficheiro não há o que gravar");
    assert_eq!(s.mode(), InputMode::Normal, "fecha na mesma");
    assert_eq!(s.theme().slug(), "tokyo-night-storm", "o tema aplica-se");
}

#[test]
fn em_ansi_a_caixa_desenha_o_classico_e_grava_a_escolha() {
    let mut s = Sessao::com_tema(Theme::Classico, ModoCor::Ansi);
    assert_eq!(s.modo_cor(), ModoCor::Ansi);
    s.abrir_caixa_de_temas();
    s.mover_na_caixa_de_temas(-3);
    assert_eq!(s.theme_cursor(), 0);
    assert_eq!(s.theme(), Theme::Classico, "em ansi um tema com fundo desenha-se clássico");
    assert_eq!(s.tema_gravado(), Theme::Classico);
    assert_eq!(s.confirmar_tema(true), Some(Theme::TokyoNight), "grava-se a escolha");
    assert_eq!(s.theme(), Theme::Classico);
    assert_eq!(s.theme_cursor(), 3, "o cursor volta ao tema desenhado");
}

#[test]
fn fora_da_caixa_as_teclas_da_caixa_nao_fazem_nada() {
    let mut s = Sessao::com_tema(Theme::TokyoNight, ModoCor::Rgb);
    s.mover_na_caixa_de_temas(2);
    assert_eq!(s.theme(), Theme::TokyoNight);
    assert_eq!(s.theme_cursor(), 0);
    assert_eq!(s.confirmar_tema(true), None);
    s.cancelar_tema();
    assert_eq!(s.mode(), InputMode::Normal);
}

#[test]
fn as_contas_da_selecao() {
    assert_eq!(move_selection(Some(0), 1, 2), Some(1));
    assert_eq!(clamp_selection(Some(1), 1), Some(0), "a seleção volta para dentro");
    assert_eq!(clamp_selection(Some(0), 0), None);
    assert_eq!(move_selection(None, 1, 0), None, "sem lista não há seleção");
    assert_eq!(clamp_selection(None, 3), Some(0));
    assert_eq!(move_selection(Some(2), -5, 3), Some(0));
    assert_eq!(move_selection(Some(7), 1, 3), Some(2));
    assert_eq!(move_selection(None, 1, 3), Some(1));
    assert_eq!(select_index(9, 3), Some(2));
    assert_eq!(select_index(1, 3), Some(1));
    assert_eq!(select_index(0, 0), None);
}

#[test]
fn o_estado_de_accao_expira_aos_tres_segundos() {
    let mut estado = Status::message("2 tarefas concluídas");
    let t0 = Instant::now();
    estado.tick(t0);
    assert!(estado.text().is_some(), "dentro do prazo a mensagem fica");
    estado.tick(t0 + Duration::from_secs(3) + Duration::from_millis(200));
    assert_eq!(estado, Status::Idle, "aos 3 s a mensagem de acção sai sozinha");
}

#[test]
fn o_estado_fixo_e_o_erro_nao_expiram() {
    let mut estado = Status::sticky("Removida «a» · u para desfazer");
    estado.tick(Instant::now() + Duration::from_secs(600));
    assert_eq!(estado, Status::sticky("Removida «a» · u para desfazer"));
    let mut erro = Status::error("Erro: x");
    erro.tick(Instant::now() + Duration::from_secs(600));
    assert!(erro.is_error());
}

#[test]
fn a_falha_de_gravacao_diz_onde_e_que_a_lista_ficou() {
    let falha = OpsError::Persist(StoreError::Io {
        path: "/tmp/x/db.json".to_owned(),
        source: "disco cheio".to_owned(),
    });
    assert_eq!(
        erro(&falha, "/tmp/x/db.json").text(),
        Some("Erro: não gravou /tmp/x/db.json — lista intacta")
    );
    let outra = OpsError::NotFound(TodoId::from_text("abc".to_owned()));
    assert_eq!(
        erro(&outra, "/tmp/x/db.json").text(),
        Some("Erro: não existe nenhuma tarefa com o id abc")
    );
}

#[test]
fn os_erros_do_nome_da_categoria() {
    assert_eq!(
        erro_de_nome(&OpsError::EmptyName, "  ", "/db.json").text(),
        Some("Erro: o nome não pode ficar vazio")
    );
    assert_eq!(
        erro_de_nome(&OpsError::DuplicateName("Casa".to_owned()), "  casa ", "/db.json").text(),
        Some("Erro: já existe uma categoria chamada «casa»")
    );
    assert_eq!(
        erro_de_nome(&OpsError::NothingToRestore, "x", "/db.json").text(),
        Some("Erro: não há nada no lixo para restaurar")
    );
}

#[test]
fn o_tema_que_nao_gravou_fica_so_nesta_sessao() {
    let estado = erro_tema_nao_gravado("/ro/config.json");
    assert!(estado.is_error());
    assert_eq!(
        estado.text(),
        Some("Erro: não gravou /ro/config.json — tema aplicado só nesta sessão")
    );
}

#[test]
fn a_mensagem_da_importacao() {
    let mut r = ImportReport {
        lidos: 3,
        inseridos: 0,
        duplicados: 3,
        lixo: 0,
        sem_data: 0,
        categorias_criadas: 0,
        categorias_reaproveitadas: 0,
        sem_categoria: 0,
    };
    assert_eq!(
        mensagem_da_importacao(&r).text(),
        Some("Importação sem alterações: 3 lidos, 0 inseridos, 3 duplicados ignorados")
    );
    r.inseridos = 2;
    r.duplicados = 0;
    r.lidos = 2;
    r.sem_data = 1;
    assert_eq!(
        mensagem_da_importacao(&r).text(),
        Some("Importado: 2 lidos, 2 inseridos, 0 duplicados ignorados, 1 sem data legível")
    );
}

#[test]
fn a_mensagem_sai_aos_segundos_do_prazo_e_so_ela() {
    let mut estado = Status::message("Tarefa editada");
    estado.expira(2);
    assert_eq!(estado.text(), Some("Tarefa editada"), "aos 2 s ainda fica");
    estado.expira(3);
    assert_eq!(estado, Status::Idle, "aos 3 s sai");

    let mut fixo = Status::sticky("Removida «a» · u para desfazer");
    fixo.expira(600);
    assert_eq!(fixo, Status::sticky("Removida «a» · u para desfazer"));
    let mut erro = Status::error("Erro: x");
    erro.expira(600);
    assert!(erro.is_error());
}
