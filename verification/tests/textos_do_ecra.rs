use unicode_width::UnicodeWidthStr;

use todo_ratatui::dominio::model::{Category, CategoryId, Priority, Todo, TodoId};
use todo_ratatui::dominio::ops::TRASH_LIMIT;
use todo_ratatui::dominio::query::SortKey;
use todo_ratatui::dominio::store::{Store, Trashed};
use todo_ratatui::dominio::tempo::{agora, Instante};
use todo_ratatui::tui::app::{App, Status, UNDO_HINT};
use todo_ratatui::tui::event::{CodigoTecla, InputMode, Tecla};
use todo_ratatui::tui::grelha::linhas_da_ajuda;
use todo_ratatui::tui::ui::{
    barra_de_ajuda, cabecalho, coluna_do_cursor, linha_22, linha_de_estado, painel, regua_da_selecionada, vazio,
    Linha22,
};

// ------------------------------------------------------------------ the data

struct Linha {
    id: &'static str,
    prioridade: Priority,
    titulo: &'static str,
    criada: i64,
    concluida: Option<i64>,
    descricao: &'static str,
}

const TAREFAS: [Linha; 9] = [
    Linha {
        id: "1",
        prioridade: Priority::High,
        titulo: "Rever o PR do dashboard axum",
        criada: 2,
        concluida: None,
        descricao: "conflitos no Cargo.lock; falta quem aprove",
    },
    Linha {
        id: "2",
        prioridade: Priority::High,
        titulo: "Refactor do módulo de persistência para escrita atómica (tmp+rename)",
        criada: 0,
        concluida: None,
        descricao: "ver ADR — tmp ao lado do ficheiro, nunca em /tmp",
    },
    Linha {
        id: "3",
        prioridade: Priority::Medium,
        titulo: "Renovar o Cartão de Cidadão",
        criada: 12,
        concluida: None,
        descricao: "marcar online; leva 2 semanas a chegar",
    },
    Linha {
        id: "4",
        prioridade: Priority::Medium,
        titulo: "Backup do vault BrainStorm para o NAS",
        criada: 9,
        concluida: None,
        descricao: "rsync e verificar o checksum depois",
    },
    Linha {
        id: "5",
        prioridade: Priority::Medium,
        titulo: "Escrever post TugaTux sobre ratatui",
        criada: 5,
        concluida: None,
        descricao: "screenshot do WIP do todo-ratatui",
    },
    Linha {
        id: "6",
        prioridade: Priority::Low,
        titulo: "Comprar café em grão na Nota Roja",
        criada: 0,
        concluida: None,
        descricao: "250 g de Etiópia, moagem média",
    },
    Linha {
        id: "7",
        prioridade: Priority::Low,
        titulo: "Testar o ratatui 0.30 com TestBackend",
        criada: 3,
        concluida: None,
        descricao: "base dos testes de render da T6",
    },
    Linha {
        id: "8",
        prioridade: Priority::Medium,
        titulo: "Configurar tmux no portátil",
        criada: 20,
        concluida: Some(3),
        descricao: "prefixo Ctrl+a, sem rato",
    },
    Linha {
        id: "9",
        prioridade: Priority::Low,
        titulo: "Instalar a FiraCode Nerd Font",
        criada: 30,
        concluida: Some(20),
        descricao: "",
    },
];

const CATEGORIAS: [&str; 12] = [
    "Trabalho",
    "Casa",
    "Café e compras",
    "Saúde",
    "TugaTux / blog",
    "Finanças",
    "Formação Rust",
    "Backups do servidor doméstico e do NAS com verificação de checksums",
    "Leituras",
    "Projetos do NAS",
    "Viagens",
    "Família",
];

const CATEGORIA_DA_TAREFA: [Option<usize>; 9] =
    [Some(0), Some(0), Some(1), Some(7), Some(4), Some(2), Some(6), None, None];

/// The instant `dias` days before now.
fn quando(dias: i64) -> Instante {
    let mut i = agora();
    i.segundos -= dias * 86_400;
    i
}

fn id_categoria(indice: usize) -> CategoryId {
    CategoryId::from_text(format!("c{}", indice + 1))
}

fn construir(linha: &Linha, categoria: Option<usize>) -> Todo {
    let mut todo = Todo::try_new(linha.titulo).expect("título do fixture");
    todo.id = TodoId::from_text(linha.id.to_owned());
    todo.priority = linha.prioridade;
    todo.description = linha.descricao.to_owned();
    todo.created_at = quando(linha.criada);
    if let Some(dias) = linha.concluida {
        todo.done = true;
        todo.completed_at = Some(quando(dias));
    }
    todo.category_id = categoria.map(id_categoria);
    todo
}

fn entrada_do_lixo(id: &str, prioridade: Priority, titulo: &str, feita: bool, indice: usize, removida_em: i64) -> Trashed {
    let mut todo = Todo::try_new(titulo).expect("título do fixture");
    todo.id = TodoId::from_text(id.to_owned());
    todo.priority = prioridade;
    todo.created_at = quando(removida_em + 5);
    if feita {
        todo.done = true;
        todo.completed_at = Some(quando(removida_em + 1));
    }
    Trashed { todo, index: indice, deleted_at: quando(removida_em), batch: 1 }
}

fn tarefas_do_frame() -> Vec<Todo> {
    TAREFAS.iter().zip(CATEGORIA_DA_TAREFA).map(|(l, c)| construir(l, c)).collect()
}

fn lixo_do_frame() -> Vec<Trashed> {
    vec![
        entrada_do_lixo("l3", Priority::Medium, "Responder ao email do senhorio", true, 6, 6),
        entrada_do_lixo("l2", Priority::Low, "Arquivar os recibos de 2025", false, 5, 2),
        entrada_do_lixo("l1", Priority::Medium, "Pagar a subscrição do Spotify", false, 3, 0),
    ]
}

/// The whole state: the tasks, the trash, the 12 categories and the line
/// selected.
fn app_com(tarefas: Vec<Todo>, lixo: Vec<Trashed>, selecao: Option<usize>) -> App {
    let mut store = Store::vazia("/tmp/tr-fixture/db.json".to_owned());
    {
        let db = store.db_mut();
        db.todos = tarefas;
        db.trash = lixo;
        db.categories = CATEGORIAS
            .iter()
            .enumerate()
            .map(|(indice, nome)| Category { id: id_categoria(indice), name: (*nome).to_owned() })
            .collect();
    }
    let mut app = App::new(store);
    if selecao.is_some() {
        app.selecionada = selecao;
    }
    app
}

/// The screen of the list: the 9 tasks, the trash at 3 and the second line
/// selected.
fn app_da_lista() -> App {
    app_com(tarefas_do_frame(), lixo_do_frame(), Some(1))
}

// ------------------------------------------------------------------ keys

fn carrega(app: &mut App, tecla: char) {
    app.on_key(Tecla::new(CodigoTecla::Char(tecla)));
}

fn escreve(app: &mut App, texto: &str) {
    for caracter in texto.chars() {
        carrega(app, caracter);
    }
}

fn entra(app: &mut App) {
    app.on_key(Tecla::new(CodigoTecla::Enter));
}

fn linha_22_de(app: &App) -> String {
    match linha_22(app, false, 79, None) {
        Linha22::Texto(t) | Linha22::Erro(t) => t,
        Linha22::Entrada { rotulo, texto, .. } => format!("{rotulo}  {texto}"),
        Linha22::Nada => String::new(),
    }
}

// ------------------------------------------------------------------ tests

#[test]
fn mensagem_longa_corta_com_reticencias_e_nunca_a_meio_de_palavra() {
    const TEXTO: &str = "Importação sem alterações: 120 lidos, 100 inseridos, \
                         20 duplicados ignorados, 1 sem categoria, 1 sem data legível";

    let mut app = app_da_lista();
    app.status = Status::message(TEXTO);

    let linha = linha_22_de(&app);

    assert!(linha.ends_with('…'), "o corte é marcado: |{linha}|");
    assert!(linha.width() <= 79, "{} colunas úteis: |{linha}|", linha.width());
    let corte = linha.strip_suffix('…').expect("termina em `…`");
    assert!(TEXTO.starts_with(corte), "o corte é um prefixo: |{linha}|");
    let seguinte = TEXTO[corte.len()..].chars().next().expect("o texto original continua depois do corte");
    assert!(!seguinte.is_alphanumeric(), "o corte partiu uma palavra: |{linha}| (a seguir vem {seguinte:?})");
    assert!(
        linha.contains("120 lidos") && linha.contains("100 inseridos"),
        "a prova do import fica à frente do corte: |{linha}|"
    );
}

#[test]
fn o_cursor_so_aparece_nos_modos_de_texto() {
    let app = app_da_lista();
    assert_eq!(coluna_do_cursor(&app), None, "em repouso o cursor fica escondido");

    for (tecla, etiqueta) in [('a', "Nova"), ('e', "Editar"), ('/', "Busca"), ('i', "Importar"), ('x', "Exportar")] {
        let mut app = app_da_lista();
        carrega(&mut app, tecla);
        assert!(app.mode().is_text(), "«{tecla}» abre um modo de texto");
        escreve(&mut app, "café");
        let coluna = coluna_do_cursor(&app);
        assert!(coluna.is_some(), "«{tecla}»: {} é um modo de texto", app.mode().label());
        assert_eq!(app.mode().label(), etiqueta);
        assert_eq!(
            usize::from(coluna.unwrap()),
            etiqueta.width() + 2 + app.input().width(),
            "«{tecla}»: etiqueta + 2 espaços + buffer, medido em colunas"
        );
    }
}

#[test]
fn a_barra_do_desfazer_so_reduz_com_a_mensagem_de_remocao() {
    let mut app = app_da_lista();
    carrega(&mut app, 'j');
    carrega(&mut app, 'd');
    assert!(app.status.text().is_some_and(|texto| texto.contains(UNDO_HINT)));

    assert_eq!(
        barra_de_ajuda(&app),
        "u desfazer  ? ajuda",
        "é a mesma barra do frame 80x24-5-undo, agora com uma remoção a sério"
    );
    let linha = linha_22_de(&app);
    assert!(linha.starts_with("Removida «"), "{linha}");

    carrega(&mut app, 'u');
    assert_eq!(
        barra_de_ajuda(&app),
        "a nova  e editar  Espaço concluir  d remover  u desfazer  / buscar  ? ajuda",
        "com o undo feito, a barra volta ao normal"
    );
}

#[test]
fn a_ajuda_lista_as_teclas_do_contexto_actual() {
    let mut app = app_da_lista();
    carrega(&mut app, 'L');
    carrega(&mut app, '?');
    assert_eq!(app.mode(), InputMode::Help);

    let caixa: String = linhas_da_ajuda(&app, 60, 15)
        .iter()
        .map(|corridas| corridas.iter().map(|(texto, _)| texto.as_str()).collect::<String>())
        .collect::<Vec<String>>()
        .join("\n");
    assert!(caixa.contains("restaurar"), "a caixa do lixo lista o `Enter`");
    assert!(caixa.contains("esvaziar o lixo"));
    assert!(caixa.contains("voltar à lista"));
    for ausente in ["nova tarefa", "d  remover", "limpar concluídas", "u  desfazer"] {
        assert!(!caixa.contains(ausente), "«{ausente}» não vale no lixo:\n{caixa}");
    }

    carrega(&mut app, '?');
    assert_eq!(app.mode(), InputMode::Trash, "fechar a ajuda volta para o lixo");
}

#[test]
fn a_tecla_s_liga_a_ordem_do_core_a_linha_2() {
    let mut app = app_da_lista();
    let antes = linha_de_estado(&app).0;
    assert!(antes.contains("ordem: prioridade"), "{antes}");
    assert_eq!(app.sort, SortKey::Priority, "a ordem por omissão é a do golden");

    carrega(&mut app, 's');
    let depois = linha_de_estado(&app).0;
    assert_eq!(app.sort, SortKey::Status);
    assert!(depois.contains("ordem: estado"), "{depois}");
}

#[test]
fn a_filtragem_e_a_busca_nao_mentem_no_cabecalho() {
    let mut app = app_da_lista();
    carrega(&mut app, '/');
    escreve(&mut app, "café");
    entra(&mut app);
    let topo = cabecalho(&app);
    assert!(topo.contains("1 de 9 tarefas"), "{topo}");
    assert!(topo.ends_with("7 pendentes · 2 concluídas"), "as contagens são da base toda, não da vista: {topo}");
    let estado = linha_de_estado(&app).0;
    assert!(estado.contains("busca \"café\""), "{estado}");
}

#[test]
fn a_ajuda_lista_a_tecla_do_tema() {
    let mut app = app_da_lista();
    carrega(&mut app, '?');
    assert_eq!(app.mode(), InputMode::Help);

    let linhas: Vec<String> = linhas_da_ajuda(&app, 60, 15)
        .iter()
        .map(|corridas| corridas.iter().map(|(texto, _)| texto.as_str()).collect::<String>())
        .collect();
    assert!(
        linhas[10].contains("L  ver o lixo") && linhas[11].contains("T  tema"),
        "o `T` entra a seguir ao `L`:\n{}\n{}",
        linhas[10],
        linhas[11]
    );
    assert!(
        linhas[12].contains("i  importar · x  exportar"),
        "e as teclas de ficheiro vêm logo depois, sem espaçador pelo meio: {}",
        linhas[12]
    );
    for (linha, tecla) in [(10usize, 'L'), (11, 'T'), (12, 'i')] {
        assert_eq!(linhas[linha].chars().nth(26), Some(tecla), "coluna da direita: {}", linhas[linha]);
    }
    assert!(
        linhas[13].contains("Esc  fechar a ajuda") && linhas[13].contains("q  sair"),
        "a linha de saída continua a ser a última da caixa: {}",
        linhas[13]
    );
    assert_eq!(barra_de_ajuda(&app), "? ou Esc fecha a ajuda", "a barra da linha 24 da ajuda não mudou com a linha nova");
}

#[test]
fn frame_9_sem_resultados() {
    let mut app = app_da_lista();
    carrega(&mut app, 'f');
    carrega(&mut app, '/');
    escreve(&mut app, "netflix");
    entra(&mut app);
    app.on_key(Tecla::new(CodigoTecla::Esc));
    assert_eq!(app.status, Status::Idle);

    assert_eq!(linha_22_de(&app), "", "sem mensagem na linha 22");
    let corpo = vazio(&app, 80, 18);
    assert!(corpo[8].contains("Nenhuma tarefa corresponde a: filtro pendentes"), "{}", corpo[8]);
    assert_eq!(barra_de_ajuda(&app), "Esc limpar  a nova  ? ajuda");
}

#[test]
fn frame_5_undo() {
    let mut app = app_da_lista();
    app.status = Status::message(&format!("Removida «Comprar café em grão na Nota Roja»    {UNDO_HINT}"));
    assert_eq!(barra_de_ajuda(&app), "u desfazer  ? ajuda");
}

#[test]
fn frame_8_vazio() {
    let app = app_com(Vec::new(), lixo_do_frame(), None);
    assert!(cabecalho(&app).contains("0 tarefas · 0 pendentes · 0 concluídas"));
    let corpo = vazio(&app, 80, 18);
    assert_eq!(corpo[8], format!("{}Sem tarefas.", " ".repeat(34)), "o texto fica centrado na lista");
    assert_eq!(corpo[10], format!("{}a  adicionar a primeira", " ".repeat(28)));
    assert_eq!(barra_de_ajuda(&app), "a nova  ? ajuda");
}

#[test]
fn frame_10_lixo() {
    let mut app = app_da_lista();
    carrega(&mut app, 'L');
    assert_eq!(app.mode(), InputMode::Trash);
    app.selecionada = Some(0);

    assert!(cabecalho(&app).ends_with("lixo: 3 de 100"), "no lixo o cabeçalho conta o lixo: {}", cabecalho(&app));
    let (esquerda, _, direita) = linha_de_estado(&app);
    assert!(esquerda.starts_with("vista: lixo · ordem: removidas primeiro"));
    assert_eq!(direita, "removida");
    assert!(linha_22_de(&app).contains("Enter restaura «Pagar a subscrição do Spotify» para a posição 4 da lista"));
    assert_eq!(
        barra_de_ajuda(&app),
        "Enter restaura  c esvaziar o lixo  Esc volta  ? ajuda",
        "no lixo o rodapé só mostra as teclas vivas neste contexto"
    );
}

#[test]
fn frame_11_lixo_armado() {
    let mut app = app_da_lista();
    carrega(&mut app, 'L');
    carrega(&mut app, 'c');
    assert!(app.armed(), "a primeira pressão arma");
    assert_eq!(app.store().trash_len(), 3, "e não esvazia nada");
    app.selecionada = Some(0);

    assert!(linha_22_de(&app).contains("Esvaziar o lixo? 3 entradas, sem volta atrás"));
    assert_eq!(barra_de_ajuda(&app), "c confirmar  Esc cancela");
}

#[test]
fn frame_12_lixo_transbordo() {
    let mut tarefas = tarefas_do_frame();
    let mut extra = Todo::try_new("tarefa temporária").expect("título do fixture");
    extra.id = TodoId::from_text("extra".to_owned());
    extra.priority = Priority::Low;
    extra.created_at = quando(1);
    tarefas.push(extra);

    let lixo: Vec<Trashed> = (0..TRASH_LIMIT + 1)
        .map(|i| entrada_do_lixo(&format!("d{i}"), Priority::Low, &format!("entrada antiga {i}"), false, i, 40))
        .collect();

    let mut app = app_com(tarefas, lixo, None);
    let indice = app
        .visible()
        .iter()
        .position(|todo| todo.title == "tarefa temporária")
        .expect("a tarefa extra está na vista");
    app.selecionada = Some(indice);
    carrega(&mut app, 'd');

    assert_eq!(app.store().trash_len(), TRASH_LIMIT, "o lixo fica cheio");
    assert_eq!(app.visible().len(), 9, "só a extra saiu da lista");
    assert!(
        app.status.text().is_some_and(|texto| texto.contains("Aviso: 2 entradas antigas saíram do lixo (limite 100)")),
        "a mensagem diz quantas saíram: {:?}",
        app.status.text()
    );
    app.selecionada = Some(1);

    let estado = linha_de_estado(&app).0;
    assert!(estado.contains("lixo: 100 (cheio)"), "o indicador persiste enquanto for verdade: {estado}");
}

#[test]
fn frame_13_lixo_vazio() {
    let mut app = app_com(tarefas_do_frame(), Vec::new(), None);
    carrega(&mut app, 'L');
    assert_eq!(app.mode(), InputMode::Trash);
    assert!(app.visible().is_empty(), "o lixo está vazio");

    assert!(cabecalho(&app).ends_with("lixo: 0 de 100"), "{}", cabecalho(&app));
    let corpo = vazio(&app, 80, 18);
    assert_eq!(
        corpo[8],
        format!("{}Lixo vazio.", " ".repeat(34)),
        "o corpo é o do lixo vazio, centrado como os outros vazios"
    );
    assert_eq!(corpo[10], format!("{}O que removeres na lista fica aqui e repõe-se com Enter.", " ".repeat(12)));
    assert_eq!(
        linha_de_estado(&app),
        ("vista: lixo · ordem: removidas primeiro".to_owned(), false, ""),
        "sem lixo não há coluna de datas para nomear: o rótulo `removida` sai"
    );
    assert_eq!(linha_22_de(&app), "", "sem mensagem na linha 22");
    assert_eq!(barra_de_ajuda(&app), "Esc volta à lista  ? ajuda", "o rodapé só mostra as teclas vivas neste contexto");

    let mut sem_nada = app_com(Vec::new(), Vec::new(), None);
    carrega(&mut sem_nada, 'L');
    let corpo = vazio(&sem_nada, 80, 18);
    assert_eq!(
        corpo[8],
        format!("{}Lixo vazio.", " ".repeat(34)),
        "com a base vazia também, o corpo continua a ser o do lixo"
    );
    assert!(!corpo[8].contains("Sem tarefas"), "e não o vazio da lista: {}", corpo[8]);
    assert_eq!(barra_de_ajuda(&sem_nada), "Esc volta à lista  ? ajuda");
}

#[test]
fn frame_120x32_detalhe() {
    let mut tarefas = tarefas_do_frame();
    let criada = quando(0);
    tarefas[1].created_at = criada;
    let mut app = app_com(tarefas, lixo_do_frame(), Some(1));
    app.status = Status::message("A descrição do selecionado aparece no painel quando houver altura; a partir de 96×28");

    let marca = todo_ratatui::dominio::tempo::escrever_data_e_hora(&criada).expect("data representável");
    let linhas: Vec<String> =
        painel(&app, 120).iter().map(|l| format!("  {}{}{}", l.chave, " ".repeat(l.espaco), l.valor)).collect();
    assert_eq!(linhas.len(), 5);
    assert!(regua_da_selecionada(120).contains("─ selecionada "));
    assert!(linhas[0].contains("Título") && linhas[0].contains("Refactor do módulo"));
    assert!(linhas[1].contains("Descrição") && linhas[1].contains("ver ADR"));
    assert!(
        linhas[2].contains("Categoria") && linhas[2].contains("Trabalho"),
        "a categoria entra entre a descrição e a prioridade, com o nome inteiro: {}",
        linhas[2]
    );
    assert!(linhas[3].contains("Alta (H)") && linhas[3].contains(&marca), "a data de criação aparece formatada: {}", linhas[3]);
    assert!(linhas[3].contains("concluída —"));
    assert!(linhas[4].contains("id 2"), "{}", linhas[4]);
}
