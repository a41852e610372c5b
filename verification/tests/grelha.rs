use unicode_width::UnicodeWidthStr;

use todo_ratatui::dominio::model::{Priority, Todo};
use todo_ratatui::dominio::store::Store;
use todo_ratatui::dominio::tempo::{Data, Instante};
use todo_ratatui::tui::app::App;
use todo_ratatui::tui::event::{CodigoTecla, Tecla};
use todo_ratatui::tui::grelha::{
    caixa_da_ajuda, celulas_da_ajuda, celulas_para_linha, escreve, linhas_da_ajuda, teclas_da_ajuda, Tinta,
};
use todo_ratatui::tui::ui::{
    barra, centrada, coluna_de_tarefa, coluna_do_cursor, painel, regua, regua_da_selecionada, row_line, vazio,
};

fn app(titulos: &[&str]) -> App {
    let mut store = Store::vazia("/tmp/todo/db.json".to_owned());
    for titulo in titulos {
        store.add(titulo).expect("adicionar");
    }
    App::new(store)
}

fn texto(celulas: &[(char, Tinta)]) -> String {
    celulas.iter().map(|(c, _)| *c).collect()
}

fn meia_noite(dias: i64) -> Instante {
    Instante { segundos: dias * 86_400, nanos: 0, desvio: 0 }
}

#[test]
fn a_caixa_de_ajuda_fica_ao_centro() {
    assert_eq!(caixa_da_ajuda(80, 24), (10, 4, 60, 15));
    assert_eq!(caixa_da_ajuda(100, 40), (20, 12, 60, 15));
    assert_eq!(caixa_da_ajuda(50, 10), (0, 0, 50, 10));
}

#[test]
fn a_caixa_de_ajuda_tem_moldura_e_teclas_nas_colunas_certas() {
    let grelha = celulas_da_ajuda(false, 60, 15);
    assert_eq!(grelha.len(), 15);
    assert!(grelha.iter().all(|linha| linha.len() == 60));

    let topo = texto(&grelha[0]);
    assert!(topo.starts_with("╭── ajuda ─"), "{topo}");
    assert!(topo.ends_with("─╮"), "{topo}");
    assert_eq!(grelha[0][4], ('a', Tinta::Destaque));
    assert_eq!(grelha[0][0], ('╭', Tinta::Regua));

    let seccoes = texto(&grelha[2]);
    assert!(seccoes.starts_with("│ Navegação"));
    assert_eq!(grelha[2][2], ('N', Tinta::Destaque));
    assert_eq!(grelha[2][26], ('T', Tinta::Destaque));
    assert!(seccoes.contains("Navegação"));
    assert!(seccoes.contains("Tarefas"));

    let primeira = texto(&grelha[3]);
    assert_eq!(grelha[3][2], ('j', Tinta::Texto));
    assert!(primeira.contains("a  nova tarefa"));

    let fundo = texto(&grelha[14]);
    assert_eq!(fundo, format!("╰{}╯", "─".repeat(58)));
}

#[test]
fn a_ajuda_do_lixo_so_lista_as_teclas_do_lixo() {
    let grelha = celulas_da_ajuda(true, 60, 15);
    let seccoes = texto(&grelha[2]);
    assert!(seccoes.contains("Lixo"));
    let todas: String = grelha.iter().map(|l| texto(l)).collect();
    assert!(todas.contains("Enter  restaurar"));
    assert!(!todas.contains("a  nova tarefa"));
    assert_eq!(teclas_da_ajuda(true, 5), Some(("", "Esc  voltar à lista")));
    assert_eq!(teclas_da_ajuda(false, 13), None);
}

#[test]
fn uma_caixa_estreita_corta_as_linhas() {
    let grelha = celulas_da_ajuda(false, 8, 3);
    assert_eq!(grelha.len(), 3);
    assert_eq!(texto(&grelha[0]), "╭── ajud");
    assert_eq!(texto(&grelha[1]), "│      │");
    assert_eq!(texto(&grelha[2]), "╰──────╯");
}

#[test]
fn celulas_vizinhas_do_mesmo_papel_juntam_se() {
    let celulas = vec![('a', Tinta::Texto), ('b', Tinta::Texto), ('─', Tinta::Regua), ('c', Tinta::Texto)];
    assert_eq!(
        celulas_para_linha(&celulas),
        vec![("ab".to_owned(), Tinta::Texto), ("─".to_owned(), Tinta::Regua), ("c".to_owned(), Tinta::Texto)]
    );
    assert_eq!(celulas_para_linha(&Vec::new()), Vec::<(String, Tinta)>::new());
}

#[test]
fn escrever_para_la_do_fim_perde_o_que_nao_cabe() {
    let mut celulas = vec![(' ', Tinta::Texto); 4];
    escreve(&mut celulas, 2, "xyz", Tinta::Destaque);
    assert_eq!(texto(&celulas), "  xy");
    assert_eq!(celulas[3], ('y', Tinta::Destaque));
    escreve(&mut celulas, 9, "w", Tinta::Texto);
    assert_eq!(texto(&celulas), "  xy");
}

#[test]
fn linhas_da_ajuda_seguem_o_contexto_do_app() {
    let mut app = app(&["a"]);
    app.on_key(Tecla::new(CodigoTecla::Char('?')));
    let linhas = linhas_da_ajuda(&app, 60, 15);
    assert_eq!(linhas.len(), 15);
    assert_eq!(linhas[2][2], ("Navegação".to_owned(), Tinta::Destaque));
}

#[test]
fn reguas() {
    assert_eq!(regua(3), "───");
    assert_eq!(regua_da_selecionada(20), "─ selecionada ──────");
    assert_eq!(regua_da_selecionada(5), "─ selecionada ");
}

#[test]
fn barra_e_centrada_medem_colunas() {
    assert_eq!(barra("ab", "cd", 10), 6);
    assert_eq!(barra("café", "x", 10), 5);
    assert_eq!(barra("abcdef", "ghijk", 10), 0);
    assert_eq!(centrada("ab", 6), "  ab");
    assert_eq!(centrada("ab", 7), "  ab");
    assert_eq!(centrada("abcdefgh", 4), "abcdefgh");
}

#[test]
fn o_vazio_poe_os_textos_a_volta_do_meio() {
    let app = app(&[]);
    let linhas = vazio(&app, 30, 6);
    assert_eq!(linhas.len(), 6);
    assert_eq!(linhas[2], format!("{}Sem tarefas.", " ".repeat(9)));
    assert_eq!(linhas[4], format!("{}a  adicionar a primeira", " ".repeat(3)));
    assert_eq!(linhas[0], "");
    assert_eq!(linhas[3], "");
    let uma = vazio(&app, 30, 1);
    assert_eq!(uma, vec![String::new()]);
}

#[test]
fn o_cursor_fica_depois_do_que_foi_escrito() {
    let mut app = app(&["a"]);
    assert_eq!(coluna_do_cursor(&app), None);
    app.on_key(Tecla::new(CodigoTecla::Char('a')));
    assert_eq!(coluna_do_cursor(&app), Some(6));
    for c in "abc".chars() {
        app.on_key(Tecla::new(CodigoTecla::Char(c)));
    }
    assert_eq!(coluna_do_cursor(&app), Some(9));
    app.on_key(Tecla::new(CodigoTecla::Left));
    assert_eq!(coluna_do_cursor(&app), Some(8));
}

#[test]
fn a_coluna_da_data_conta_os_dias() {
    let mut store = Store::vazia("/tmp/todo/db.json".to_owned());
    store.add("a").expect("adicionar");
    store.db_mut().todos[0].created_at = meia_noite(19_723);
    let hoje = Data { ano: 2024, mes: 1, dia: 3 };
    assert_eq!(coluna_de_tarefa(&store.todos()[0], &hoje), "há 2 d");
    let mut feita = store.todos()[0].clone();
    feita.done = true;
    feita.completed_at = None;
    assert_eq!(coluna_de_tarefa(&feita, &hoje), "✓ hoje");
    feita.completed_at = Some(meia_noite(19_724));
    assert_eq!(coluna_de_tarefa(&feita, &hoje), "✓ ontem");
}

#[test]
fn o_painel_mostra_a_selecionada() {
    let mut store = Store::vazia("/tmp/todo/db.json".to_owned());
    store.add("comprar pão").expect("adicionar");
    {
        let t = &mut store.db_mut().todos[0];
        t.created_at = meia_noite(0);
        t.priority = Priority::High;
        t.description = "na padaria".to_owned();
    }
    let id = store.todos()[0].id.as_str().to_owned();
    let app = App::new(store);
    let linhas = painel(&app, 120);
    assert_eq!(linhas.len(), 5);
    assert_eq!(linhas[0].chave, "Título");
    assert_eq!(linhas[0].espaco, 6);
    assert_eq!(linhas[0].valor, "comprar pão");
    assert_eq!(linhas[1].valor, "na padaria");
    assert_eq!(linhas[1].espaco, 3);
    assert_eq!((linhas[2].chave, linhas[2].valor.as_str()), ("Categoria", "—"));
    assert_eq!(linhas[3].valor, "Alta (H)    ·    criada 1970-01-01 00:00    ·    concluída —");
    assert_eq!(linhas[4].valor, format!("—    ·    id {id}"));

    let estreito = painel(&app, 26);
    assert_eq!(estreito[3].valor, "Alta (H) …");

    let sem_nada = App::new(Store::vazia("/tmp/todo/db.json".to_owned()));
    assert!(painel(&sem_nada, 120).is_empty());
}

#[test]
fn row_line_preenche_a_largura_toda() {
    let todo = Todo::try_new("Comprar café").expect("título");
    let largura_da_linha = |selecionado: bool, w: usize| {
        let (l, coluna) = row_line(&todo, selecionado, w);
        let texto = format!("{}{}{} {}{}{}", l.prefixo, l.caixa, l.marca, l.titulo, " ".repeat(l.espaco), coluna);
        UnicodeWidthStr::width(texto.as_str())
    };
    assert_eq!(largura_da_linha(false, 80), 80);
    assert_eq!(largura_da_linha(true, 80), 80, "a barra é sólida");
    assert_eq!(largura_da_linha(false, 120), 120);
}
