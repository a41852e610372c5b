use todo_ratatui::dominio::import_export::{
    cabecalho_esperado, fundir, linhas_csv, parse_instante, row, Candidato, CsvRow, ImportError,
    ImportReport, LegacyTodo, PedidoCategoria, CSV_COLUMNS, CSV_COLUMNS_V11,
};
use todo_ratatui::dominio::importacao::{
    e_csv, importar_csv, importar_csv_de, importar_json, ler_cabecalho_csv, JsonLido, RegistoJson,
};
use todo_ratatui::dominio::model::{Category, CategoryId, Priority, Todo, TodoId};
use todo_ratatui::dominio::ops::TRASH_LIMIT;
use todo_ratatui::dominio::store::{Db, Store, Trashed, SCHEMA_VERSION};
use todo_ratatui::dominio::tempo::agora;

fn nova_loja() -> Store {
    Store::vazia("db.json".to_owned())
}

/// The header and records of a CSV text, as the reader of the program
/// hands them over: columns by name, a missing column read as empty.
fn ler_csv(texto: &str) -> (Vec<String>, Vec<Result<CsvRow, ImportError>>) {
    let mut leitor = csv::ReaderBuilder::new().has_headers(true).flexible(false).from_reader(texto.as_bytes());
    let cabecalho: Vec<String> = leitor.headers().unwrap().iter().map(str::to_owned).collect();
    let mut registos = Vec::new();
    for registo in leitor.records() {
        let registo = registo.unwrap();
        let campo = |nome: &str| -> String {
            cabecalho
                .iter()
                .position(|c| c == nome)
                .and_then(|i| registo.get(i))
                .unwrap_or("")
                .to_owned()
        };
        registos.push(Ok(CsvRow {
            id: campo("id"),
            title: campo("title"),
            description: campo("description"),
            done: campo("done") == "true",
            priority: campo("priority"),
            created_at: campo("created_at"),
            completed_at: campo("completed_at"),
            due_at: campo("due_at"),
            category: campo("category"),
        }));
    }
    (cabecalho, registos)
}

fn importar_texto(store: &mut Store, path: &str, texto: &str) -> Result<ImportReport, ImportError> {
    let (cabecalho, registos) = ler_csv(texto);
    importar_csv(store, path, cabecalho, registos)
}

/// The CSV text a database exports.
fn exportar(db: &Db) -> String {
    let mut escritor = csv::WriterBuilder::new().has_headers(false).from_writer(Vec::new());
    for linha in linhas_csv(db) {
        escritor.write_record(&linha).unwrap();
    }
    String::from_utf8(escritor.into_inner().unwrap()).unwrap()
}

fn tarefa_nova(id: &str, titulo: &str, categoria: Option<&str>) -> Todo {
    let mut t = Todo::try_new(titulo).unwrap();
    t.id = TodoId::from_text(id.to_owned());
    t.created_at = parse_instante("2026-09-18T10:00:00+01:00").unwrap();
    t.priority = Priority::High;
    t.category_id = categoria.map(|c| CategoryId::from_text(c.to_owned()));
    t
}

#[test]
fn relatorio_do_import_e_legivel() {
    let relatorio = ImportReport { lidos: 10, inseridos: 7, duplicados: 3, lixo: 1, sem_data: 2, ..ImportReport::default() };
    assert_eq!(
        relatorio.resumo(),
        "10 lidos, 7 inseridos, 3 duplicados ignorados, 1 no lixo, 2 sem data legível"
    );
    assert!(!relatorio.sem_alteracoes());
    assert!(ImportReport::default().sem_alteracoes());
}

#[test]
fn relatorio_do_import_conta_as_categorias() {
    let relatorio = ImportReport {
        lidos: 3,
        inseridos: 3,
        categorias_criadas: 1,
        categorias_reaproveitadas: 1,
        sem_categoria: 2,
        ..ImportReport::default()
    };
    assert_eq!(
        relatorio.resumo(),
        "3 lidos, 3 inseridos, 0 duplicados ignorados, 1 categorias criadas, \
         1 categorias reaproveitadas, 2 sem categoria"
    );
    assert!(!relatorio.sem_alteracoes());
    let so_categorias = ImportReport { categorias_criadas: 1, ..ImportReport::default() };
    assert!(!so_categorias.sem_alteracoes());
}

#[test]
fn export_escreve_o_cabecalho_esperado() {
    let mut store = nova_loja();
    store.add("uma").unwrap();
    let linhas = linhas_csv(store.db());
    assert_eq!(linhas.len() - 1, 1);
    let conteudo = exportar(store.db());
    let mut linhas = conteudo.lines();
    assert_eq!(linhas.next().unwrap(), CSV_COLUMNS.join(","));
    assert!(linhas.next().unwrap().contains("uma"));
}

#[test]
fn csv_sem_cabecalho_da_erro_e_nao_engole_a_primeira_tarefa() {
    let path = "/tmp/dados/sem-cabecalho.csv";
    let mut store = nova_loja();
    let erro = importar_texto(
        &mut store,
        path,
        "01HXYZ,tarefa perdida,desc,false,high,2026-09-18T10:00:00+01:00,,\n",
    )
    .expect_err("tinha de falhar");
    assert!(matches!(erro, ImportError::Header { .. }), "erro foi {erro:?}");
    let mensagem = erro.mensagem();
    assert!(mensagem.contains(path), "sem caminho na mensagem: {mensagem}");
    assert!(mensagem.contains("01HXYZ"), "{mensagem}");
    assert!(mensagem.contains("primeira tarefa"), "mensagem: {mensagem}");
    assert!(mensagem.contains(&CSV_COLUMNS.join(", ")), "{mensagem}");
    assert!(mensagem.contains(&CSV_COLUMNS_V11.join(", ")), "{mensagem}");
    assert_eq!(store.todos().len(), 0, "não se importou nada");
}

#[test]
fn csv_com_linha_curta_da_erro_com_ficheiro_e_linha_sem_panic() {
    let path = "/tmp/dados/curto.csv";
    let erro_do_leitor = ImportError::Csv {
        path: path.to_owned(),
        linha: Some(3),
        registo: Some(2),
        source: "found record with 2 fields, but the previous record has 8 fields".to_owned(),
    };
    let (cabecalho, mut registos) = ler_csv(
        "id,title,description,done,priority,created_at,completed_at,due_at\n\
         a1,boa,desc,false,high,2026-09-18T10:00:00+01:00,,\n",
    );
    registos.push(Err(erro_do_leitor.clone()));
    let mut store = nova_loja();
    let erro = importar_csv(&mut store, path, cabecalho, registos).expect_err("tinha de falhar");
    match &erro {
        ImportError::Csv { linha, path: ficheiro_do_erro, .. } => {
            assert_eq!(ficheiro_do_erro, path);
            assert_eq!(*linha, Some(3), "a linha do registo curto é a 3");
        }
        outro => panic!("erro inesperado: {outro:?}"),
    }
    let mensagem = erro.mensagem();
    assert!(mensagem.contains("curto.csv"), "mensagem: {mensagem}");
    assert!(mensagem.contains("linha 3"), "mensagem: {mensagem}");
    assert_eq!(store.todos().len(), 0, "nada foi importado a meio");
}

#[test]
fn import_duas_vezes_nao_duplica() {
    let mut origem = nova_loja();
    origem.add("primeira").unwrap();
    origem.add("segunda").unwrap();
    let texto = exportar(origem.db());

    let mut destino = nova_loja();
    let primeiro = importar_texto(&mut destino, "dados.csv", &texto).unwrap();
    assert_eq!(primeiro.inseridos, 2);
    assert_eq!(primeiro.duplicados, 0);

    let segundo = importar_texto(&mut destino, "dados.csv", &texto).unwrap();
    assert_eq!(segundo.lidos, 2);
    assert_eq!(segundo.inseridos, 0);
    assert_eq!(segundo.duplicados, 2, "a contagem diz o que foi ignorado");
    assert!(segundo.sem_alteracoes());
    assert_eq!(destino.todos().len(), 2, "sem extend cego");
}

#[test]
fn import_ignora_repetidos_dentro_do_proprio_ficheiro() {
    let mut store = nova_loja();
    let relatorio = importar_texto(
        &mut store,
        "repetidos.csv",
        "id,title,description,done,priority,created_at,completed_at,due_at\n\
         mesmo,primeira,,false,medium,2026-09-18T10:00:00+01:00,,\n\
         mesmo,repetida,,false,medium,2026-09-18T10:00:00+01:00,,\n",
    )
    .unwrap();
    assert_eq!(relatorio.inseridos, 1);
    assert_eq!(relatorio.duplicados, 1);
    assert_eq!(store.todos().len(), 1);
    assert_eq!(store.todos()[0].title, "primeira");
}

#[test]
fn prioridade_invalida_da_erro_com_linha_e_caminho() {
    let mut store = nova_loja();
    let erro = importar_texto(
        &mut store,
        "má.csv",
        "id,title,description,done,priority,created_at,completed_at,due_at\n\
         p1,tarefa,,false,urgente,2026-09-18T10:00:00+01:00,,\n",
    )
    .expect_err("tinha de falhar");
    match &erro {
        ImportError::Row { linha, campo, .. } => {
            assert_eq!(*linha, 2);
            assert_eq!(*campo, "priority");
        }
        outro => panic!("erro inesperado: {outro:?}"),
    }
    assert!(erro.mensagem().contains("urgente"));
    assert!(erro.mensagem().contains("má.csv"));
}

#[test]
fn import_json_legado_do_rtodo() {
    let mut store = nova_loja();
    let registos = vec![
        RegistoJson::Legado(LegacyTodo {
            title: "antiga".to_owned(),
            description: "do rtodo".to_owned(),
            done: false,
            time: Some("High".to_owned()),
            date: "2023-01-05".to_owned(),
        }),
        RegistoJson::Legado(LegacyTodo {
            title: "sem data".to_owned(),
            description: String::new(),
            done: true,
            time: None,
            date: String::new(),
        }),
    ];
    let relatorio = importar_json(&mut store, "db-legado.json", JsonLido::Registos(registos)).unwrap();
    assert_eq!(relatorio.lidos, 2);
    assert_eq!(relatorio.inseridos, 2);
    assert_eq!(relatorio.duplicados, 0);
    assert_eq!(relatorio.sem_data, 1, "uma veio sem data legível");

    let antiga = store.todos().iter().find(|t| t.title == "antiga").unwrap();
    assert_eq!(antiga.priority, Priority::High);
    assert_eq!(antiga.description, "do rtodo");
    assert!(!antiga.is_done() && antiga.completed_at.is_none());
    let sem_data = store.todos().iter().find(|t| t.title == "sem data").unwrap();
    assert!(sem_data.is_done());
    assert_eq!(sem_data.priority, Priority::Medium);
    assert!(sem_data.completed_at.is_none(), "não se inventa a data");
    assert!(!antiga.id.as_str().is_empty(), "o legado ganha id novo");
}

#[test]
fn import_json_envelope_funde_por_id() {
    let mut origem = nova_loja();
    let ja_existe = origem.add("já cá está").unwrap();
    origem.add("também vai").unwrap();

    let mut destino = nova_loja();
    destino.add("local").unwrap();
    destino.insert(origem.find(&ja_existe).unwrap().clone()).unwrap();

    let relatorio = importar_json(&mut destino, "db.json", JsonLido::Envelope(origem.db().clone())).unwrap();
    assert_eq!(relatorio.lidos, 2);
    assert_eq!(relatorio.inseridos, 1, "só a que faltava");
    assert_eq!(relatorio.duplicados, 1);
    assert_eq!(destino.todos().len(), 3);
}

#[test]
fn import_json_sem_envelope_da_erro() {
    let mut store = nova_loja();
    let erro = importar_json(&mut store, "solto.json", JsonLido::SemEnvelope).expect_err("tinha de falhar");
    assert!(matches!(erro, ImportError::NotEnveloped { .. }));
}

#[test]
fn import_json_schema_desconhecido_da_erro() {
    let mut store = nova_loja();
    let db = Db { schema: 99, ..Db::empty() };
    let erro = importar_json(&mut store, "futuro.json", JsonLido::Envelope(db)).expect_err("tinha de falhar");
    match &erro {
        ImportError::Schema { encontrado, esperado, .. } => {
            assert_eq!(*encontrado, 99);
            assert_eq!(*esperado, SCHEMA_VERSION);
        }
        outro => panic!("erro inesperado: {outro:?}"),
    }
}

#[test]
fn import_respeita_o_limite_do_lixo() {
    let mut db = Db::empty();
    for i in 0..TRASH_LIMIT + 20 {
        db.trash.push(Trashed {
            todo: Todo::try_new(&format!("lixo {i}")).unwrap(),
            index: i,
            deleted_at: agora(),
            batch: 1,
        });
    }
    let mut store = nova_loja();
    let relatorio = importar_json(&mut store, "db.json", JsonLido::Envelope(db)).unwrap();
    assert_eq!(relatorio.lidos, TRASH_LIMIT + 20);
    assert_eq!(relatorio.lixo, TRASH_LIMIT, "o lixo não passa do limite");
    assert_eq!(store.db().trash.len(), TRASH_LIMIT);
    assert_eq!(store.db().trash_dropped, 20, "e a contagem é gravada");
}

#[test]
fn import_despacha_pela_extensao() {
    assert!(e_csv("/tmp/dados.CSV"));
    assert!(e_csv("dados.csv"));
    assert!(!e_csv("/tmp/legado.json"));
    assert!(!e_csv(".csv"), "um nome que começa pelo ponto não tem extensão");
    assert!(!e_csv("sem-extensao"));

    let mut origem = nova_loja();
    origem.add("csv").unwrap();
    let mut destino = nova_loja();
    assert_eq!(importar_texto(&mut destino, "dados.CSV", &exportar(origem.db())).unwrap().inseridos, 1);
    let legado = vec![RegistoJson::Legado(LegacyTodo {
        title: "json".to_owned(),
        description: String::new(),
        done: false,
        time: Some("Low".to_owned()),
        date: "2024-02-02".to_owned(),
    })];
    assert_eq!(importar_json(&mut destino, "legado.json", JsonLido::Registos(legado)).unwrap().inseridos, 1);
    assert_eq!(destino.todos().len(), 2);
}

#[test]
fn csv_tem_9_colunas_a_ultima_e_a_categoria_e_o_round_trip_nao_duplica() {
    let mut origem = nova_loja();
    let trabalho = origem.add_category("Trabalho").unwrap();
    let com = origem.add("com categoria").unwrap();
    origem.assign_category(&com, Some(&trabalho)).unwrap();
    origem.add("sem categoria").unwrap();

    assert_eq!(linhas_csv(origem.db()).len() - 1, 2);
    let conteudo = exportar(origem.db());
    let mut linhas = conteudo.lines();
    let cabecalho = linhas.next().unwrap();
    assert_eq!(cabecalho, CSV_COLUMNS.join(","));
    assert_eq!(cabecalho.split(',').count(), 9, "9 colunas");
    assert_eq!(cabecalho.split(',').next_back().unwrap(), "category");
    assert_eq!(linhas.next().unwrap().split(',').next_back().unwrap(), "Trabalho");
    assert_eq!(linhas.next().unwrap().split(',').next_back().unwrap(), "");

    let mut destino = nova_loja();
    let relatorio = importar_texto(&mut destino, "backup.csv", &conteudo).unwrap();
    assert_eq!(relatorio.lidos, 2);
    assert_eq!(relatorio.inseridos, 2);
    assert_eq!(relatorio.duplicados, 0);
    assert_eq!(relatorio.categorias_criadas, 1, "a categoria viaja no CSV");
    assert_eq!(relatorio.categorias_reaproveitadas, 0);
    assert_eq!(relatorio.sem_categoria, 0);
    assert_eq!(destino.categories().len(), 1);
    let importada = destino.find(&com).expect("a tarefa voltou com o mesmo id");
    let categoria = importada.category_id.clone().unwrap();
    assert_eq!(destino.category(&categoria).unwrap().name, "Trabalho");
    let sem_categoria = destino.todos().iter().find(|todo| todo.title == "sem categoria").unwrap();
    assert!(sem_categoria.category_id.is_none());

    let segundo = importar_texto(&mut destino, "backup.csv", &conteudo).unwrap();
    assert_eq!(segundo.inseridos, 0);
    assert_eq!(segundo.duplicados, 2);
    assert_eq!(segundo.categorias_criadas, 0);
    assert_eq!(segundo.categorias_reaproveitadas, 0);
    assert!(segundo.sem_alteracoes());
    assert_eq!(destino.todos().len(), 2);
    assert_eq!(destino.categories().len(), 1, "não se duplicou a categoria");
}

#[test]
fn csv_da_v1_1_com_8_colunas_importa_e_fica_tudo_sem_categoria() {
    let mut store = nova_loja();
    let relatorio = importar_texto(
        &mut store,
        "v11.csv",
        "id,title,description,done,priority,created_at,completed_at,due_at\n\
         v1,antiga,desc,false,high,2026-09-18T10:00:00+01:00,,\n\
         v2,outra,,true,low,2026-09-18T11:00:00+01:00,2026-09-18T12:00:00+01:00,\n",
    )
    .unwrap();
    assert_eq!(relatorio.lidos, 2);
    assert_eq!(relatorio.inseridos, 2);
    assert_eq!(relatorio.categorias_criadas, 0);
    assert_eq!(relatorio.sem_categoria, 0);
    assert!(store.categories().is_empty());
    assert!(store.todos().iter().all(|todo| todo.category_id.is_none()));
}

#[test]
fn csv_de_9_colunas_noutra_ordem_importa() {
    let mut store = nova_loja();
    let relatorio = importar_texto(
        &mut store,
        "ordem.csv",
        "category,due_at,id,title,priority,done,created_at,completed_at,description\n\
         Viagens,,v1,com categoria,high,false,2026-09-18T10:00:00+01:00,,nota\n\
         ,,v2,outra,low,false,2026-09-18T10:00:00+01:00,,\n",
    )
    .unwrap();
    assert_eq!(relatorio.lidos, 2);
    assert_eq!(relatorio.inseridos, 2);
    assert_eq!(relatorio.categorias_criadas, 1);
    assert_eq!(relatorio.sem_categoria, 0);
    let com = store.find(&TodoId::from_text("v1".to_owned())).unwrap();
    assert_eq!(com.description, "nota");
    let categoria = com.category_id.clone().unwrap();
    assert_eq!(store.category(&categoria).unwrap().name, "Viagens");
    let sem = store.find(&TodoId::from_text("v2".to_owned())).unwrap();
    assert!(sem.category_id.is_none());
}

#[test]
fn csv_reaproveita_a_categoria_existente_por_nome_case_insensitive() {
    let mut store = nova_loja();
    let existente = store.add_category("trabalho").unwrap();
    let relatorio = importar_texto(
        &mut store,
        "cat.csv",
        "id,title,description,done,priority,created_at,completed_at,due_at,category\n\
         a1,uma,,false,medium,2026-09-18T10:00:00+01:00,,,  Trabalho  \n\
         a2,duas,,false,medium,2026-09-18T10:00:00+01:00,,,TRABALHO\n",
    )
    .unwrap();
    assert_eq!(relatorio.inseridos, 2);
    assert_eq!(relatorio.categorias_criadas, 0, "não se duplica a categoria");
    assert_eq!(relatorio.categorias_reaproveitadas, 1);
    assert_eq!(store.categories().len(), 1);
    for todo in store.todos() {
        assert_eq!(todo.category_id.as_ref(), Some(&existente));
    }
}

#[test]
fn csv_com_nome_novo_cria_a_categoria() {
    let mut store = nova_loja();
    let relatorio = importar_texto(
        &mut store,
        "nova.csv",
        "id,title,description,done,priority,created_at,completed_at,due_at,category\n\
         a1,uma,,false,medium,2026-09-18T10:00:00+01:00,,,Casa\n\
         a2,duas,,false,medium,2026-09-18T10:00:00+01:00,,,Casa\n\
         a3,três,,false,medium,2026-09-18T10:00:00+01:00,,,   \n",
    )
    .unwrap();
    assert_eq!(relatorio.inseridos, 3);
    assert_eq!(relatorio.categorias_criadas, 1, "o mesmo nome só cria uma");
    assert_eq!(relatorio.categorias_reaproveitadas, 0);
    assert_eq!(relatorio.sem_categoria, 0);
    assert_eq!(store.categories().len(), 1);
    let casa = &store.categories()[0];
    assert_eq!(casa.name, "Casa");
    assert_eq!(store.find(&TodoId::from_text("a1".to_owned())).unwrap().category_id.as_ref(), Some(&casa.id));
    assert_eq!(store.find(&TodoId::from_text("a3".to_owned())).unwrap().category_id, None);
}

#[test]
fn array_com_category_id_desconhecido_entra_sem_categoria() {
    let mut store = nova_loja();
    let registos = vec![RegistoJson::Novo(tarefa_nova("a1", "com id pendente", Some("nao-existe")))];
    let relatorio = importar_json(&mut store, "orfao.json", JsonLido::Registos(registos)).unwrap();
    assert_eq!(relatorio.inseridos, 1);
    assert_eq!(relatorio.sem_categoria, 1);
    assert_eq!(relatorio.categorias_criadas, 0);
    assert!(store.categories().is_empty());
    let tarefa = store.find(&TodoId::from_text("a1".to_owned())).expect("a tarefa entra na mesma");
    assert!(tarefa.category_id.is_none());
    assert!(relatorio.resumo().contains("1 sem categoria"), "resumo: {}", relatorio.resumo());
}

#[test]
fn array_com_category_id_da_base_mantem_a_atribuicao() {
    let mut store = nova_loja();
    let existente = store.add_category("Casa").unwrap();
    let registos = vec![RegistoJson::Novo(tarefa_nova("a1", "com categoria", Some(existente.as_str())))];
    let relatorio = importar_json(&mut store, "bom.json", JsonLido::Registos(registos)).unwrap();
    assert_eq!(relatorio.inseridos, 1);
    assert_eq!(relatorio.sem_categoria, 0);
    assert_eq!(relatorio.categorias_criadas, 0);
    assert_eq!(store.find(&TodoId::from_text("a1".to_owned())).unwrap().category_id.as_ref(), Some(&existente));
}

#[test]
fn envelope_com_categorias_round_trip_e_schema_futuro_sem_tocar_na_db() {
    let mut origem = nova_loja();
    let trabalho = origem.add_category("Trabalho").unwrap();
    let id = origem.add("com categoria").unwrap();
    origem.assign_category(&id, Some(&trabalho)).unwrap();

    let mut destino = nova_loja();
    let relatorio = importar_json(&mut destino, "db.json", JsonLido::Envelope(origem.db().clone())).unwrap();
    assert_eq!(relatorio.lidos, 1);
    assert_eq!(relatorio.inseridos, 1);
    assert_eq!(relatorio.categorias_criadas, 1);
    assert_eq!(relatorio.categorias_reaproveitadas, 0);
    assert_eq!(relatorio.sem_categoria, 0);
    let importada = destino.find(&id).expect("a tarefa voltou com o mesmo id");
    let categoria = importada.category_id.clone().unwrap();
    assert_eq!(destino.category(&categoria).unwrap().name, "Trabalho");

    let segundo = importar_json(&mut destino, "db.json", JsonLido::Envelope(origem.db().clone())).unwrap();
    assert_eq!(segundo.inseridos, 0);
    assert_eq!(segundo.duplicados, 1);
    assert_eq!(segundo.categorias_criadas, 0);
    assert_eq!(segundo.categorias_reaproveitadas, 1);
    assert!(segundo.sem_alteracoes());
    assert_eq!(destino.db().categories.len(), 1);

    let mut v11 = Db::empty();
    v11.schema = 2;
    v11.todos.push(tarefa_nova("b1", "da v1.1.0", None));
    let relatorio = importar_json(&mut destino, "v11.json", JsonLido::Envelope(v11)).unwrap();
    assert_eq!(relatorio.inseridos, 1);
    assert_eq!(relatorio.sem_categoria, 0);
    assert!(destino.find(&TodoId::from_text("b1".to_owned())).unwrap().category_id.is_none());

    let antes = destino.db().clone();
    let mut futuro = Db::empty();
    futuro.schema = 9;
    futuro.categories.push(Category { id: CategoryId::from_text("c9".to_owned()), name: "Futuro".to_owned() });
    let erro = importar_json(&mut destino, "futuro.json", JsonLido::Envelope(futuro)).expect_err("tinha de falhar");
    match &erro {
        ImportError::Schema { encontrado, esperado, .. } => {
            assert_eq!(*encontrado, 9);
            assert_eq!(*esperado, SCHEMA_VERSION);
        }
        outro => panic!("erro inesperado: {outro:?}"),
    }
    assert_eq!(destino.db(), &antes, "a Db não mudou nada");
    assert_eq!(destino.db().categories.len(), 1);
}

#[test]
fn envelope_reaproveita_por_nome_e_reescreve_o_category_id_da_tarefa() {
    let mut destino = nova_loja();
    let existente = destino.add_category("trabalho").unwrap();
    let mut db = Db::empty();
    db.categories.push(Category { id: CategoryId::from_text("do-ficheiro".to_owned()), name: "Trabalho".to_owned() });
    db.todos.push(tarefa_nova("a1", "t", Some("do-ficheiro")));
    let relatorio = importar_json(&mut destino, "envelope.json", JsonLido::Envelope(db)).unwrap();
    assert_eq!(relatorio.inseridos, 1);
    assert_eq!(relatorio.categorias_criadas, 0, "o nome já existia");
    assert_eq!(relatorio.categorias_reaproveitadas, 1);
    assert_eq!(relatorio.sem_categoria, 0);
    assert_eq!(destino.db().categories.len(), 1);
    assert_eq!(destino.find(&TodoId::from_text("a1".to_owned())).unwrap().category_id.as_ref(), Some(&existente));
}

#[test]
fn envelope_com_category_id_que_nao_resolve_entra_sem_categoria() {
    let mut db = Db::empty();
    db.todos.push(tarefa_nova("a1", "t", Some("nao-existe")));
    let mut store = nova_loja();
    let relatorio = importar_json(&mut store, "orfao.json", JsonLido::Envelope(db)).unwrap();
    assert_eq!(relatorio.inseridos, 1);
    assert_eq!(relatorio.sem_categoria, 1);
    assert!(store.todos()[0].category_id.is_none());
    assert!(relatorio.resumo().contains("1 sem categoria"));
}

#[test]
fn import_que_falha_a_meio_nao_cria_categorias() {
    let mut store = nova_loja();
    let erro = importar_texto(
        &mut store,
        "meio.csv",
        "id,title,description,done,priority,created_at,completed_at,due_at,category\n\
         a1,boa,,false,medium,2026-09-18T10:00:00+01:00,,,Nova\n\
         a2,má,,false,urgente,2026-09-18T10:00:00+01:00,,,Nova\n",
    )
    .expect_err("tinha de falhar");
    match &erro {
        ImportError::Row { linha, campo, .. } => {
            assert_eq!(*linha, 3, "linha 1 é o cabeçalho");
            assert_eq!(*campo, "priority");
        }
        outro => panic!("erro inesperado: {outro:?}"),
    }
    assert!(store.todos().is_empty());
    assert!(store.categories().is_empty());
}

#[test]
fn resumo_do_import_com_uma_criada_e_uma_reaproveitada() {
    let mut store = nova_loja();
    store.add_category("trabalho").unwrap();
    let relatorio = importar_texto(
        &mut store,
        "cat.csv",
        "id,title,description,done,priority,created_at,completed_at,due_at,category\n\
         a1,casa,,false,medium,2026-09-18T10:00:00+01:00,,,Casa\n\
         a2,emprego,,false,medium,2026-09-18T10:00:00+01:00,,,Trabalho\n\
         a3,avulsa,,false,medium,2026-09-18T10:00:00+01:00,,,\n",
    )
    .unwrap();
    assert_eq!(
        relatorio.resumo(),
        "3 lidos, 3 inseridos, 0 duplicados ignorados, 1 categorias criadas, \
         1 categorias reaproveitadas"
    );
    assert_eq!(store.categories().len(), 2);
}

#[test]
fn export_de_referencia_pendente_sai_com_o_campo_vazio() {
    let mut db = Db::empty();
    db.categories.push(Category { id: CategoryId::new(), name: "Trabalho".to_owned() });
    db.todos.push(Todo::try_new("pendente").unwrap().with_category(Some(CategoryId::new())));
    let linha = row(&db.todos[0], &db.categories);
    assert_eq!(linha[8], "");
    let conteudo = exportar(&db);
    let linha = conteudo.lines().nth(1).unwrap();
    assert_eq!(linha.split(',').next_back().unwrap(), "");
}

#[test]
fn cabecalho_aceita_os_dois_conjuntos_em_qualquer_ordem() {
    let nove: Vec<String> = CSV_COLUMNS.iter().rev().map(|c| c.to_string()).collect();
    let oito: Vec<String> = CSV_COLUMNS_V11.iter().map(|c| c.to_string()).collect();
    assert!(cabecalho_esperado(&nove));
    assert!(cabecalho_esperado(&oito));
    let mut repetido = oito.clone();
    repetido.push("id".to_owned());
    assert!(!cabecalho_esperado(&repetido), "uma coluna repetida não faz o conjunto");
    assert!(!cabecalho_esperado(&Vec::new()));
}

#[test]
fn fusao_com_ids_frescos_dados_e_determinista() {
    let mut store = nova_loja();
    let candidatos = vec![
        Candidato {
            todo: tarefa_nova("a1", "uma", None),
            categoria: Some(PedidoCategoria::Nome("  Casa ".to_owned())),
        },
        Candidato {
            todo: tarefa_nova("a2", "duas", None),
            categoria: Some(PedidoCategoria::Nome("casa".to_owned())),
        },
    ];
    let frescos = vec![CategoryId::from_text("f1".to_owned()), CategoryId::from_text("f2".to_owned())];
    let relatorio = fundir(&mut store, candidatos, Vec::new(), Vec::new(), 2, 0, &frescos);
    assert_eq!(relatorio.inseridos, 2);
    assert_eq!(relatorio.categorias_criadas, 1);
    assert_eq!(relatorio.categorias_reaproveitadas, 0, "a criada agora não conta como reaproveitada");
    assert_eq!(store.categories().len(), 1);
    assert_eq!(store.categories()[0].id.as_str(), "f1", "o id fresco da primeira tarefa que a criou");
    assert_eq!(store.categories()[0].name, "Casa", "o nome entra aparado");
    for todo in store.todos() {
        assert_eq!(todo.category_id.as_ref().map(|c| c.as_str()), Some("f1"));
    }
}

#[test]
fn round_trip_csv_com_campos_dificeis() {
    let mut store = nova_loja();
    let id = store.add("título com vírgula, e acentos à solta").unwrap();
    store.edit_description(&id, "descrição com \"aspas\"\ne nova linha; café ☕").unwrap();
    store.set_priority(&id, Priority::High).unwrap();
    store.toggle_done(&id).unwrap();
    store
        .insert(
            Todo::try_new("com data limite")
                .unwrap()
                .with_due_at(Some(todo_ratatui::dominio::tempo::Data { ano: 2026, mes: 9, dia: 30 })),
        )
        .unwrap();
    let original = store.find(&id).unwrap().clone();

    let texto = exportar(store.db());

    let mut destino = nova_loja();
    let relatorio = importar_texto(&mut destino, "backup.csv", &texto).unwrap();
    assert_eq!(relatorio.lidos, 2);
    assert_eq!(relatorio.inseridos, 2);
    assert_eq!(relatorio.duplicados, 0);
    assert_eq!(relatorio.sem_data, 0);

    let recarregado = destino.find(&id).expect("a tarefa voltou com o mesmo id");
    assert_eq!(recarregado, &original, "round-trip campo a campo");
    assert!(recarregado.is_done() && recarregado.completed_at.is_some());
    assert_eq!(
        destino.todos().iter().find(|t| t.title == "com data limite").unwrap().due_at,
        Some(todo_ratatui::dominio::tempo::Data { ano: 2026, mes: 9, dia: 30 })
    );
}

#[test]
fn id_no_csv_e_estavel_entre_exportacoes() {
    let mut store = nova_loja();
    let id = store.add("estável").unwrap();
    let texto = exportar(store.db());

    let mut destino = nova_loja();
    importar_texto(&mut destino, "a.csv", &texto).unwrap();
    let importado = &destino.todos()[0];
    assert_eq!(importado.id, id);
    assert_eq!(TodoId::from_text(id.as_str().to_owned()), importado.id);
    assert!(destino.trash_entries().is_empty());
}

fn entrada(todo: Todo) -> Trashed {
    Trashed { todo, index: 0, deleted_at: agora(), batch: 1 }
}

#[test]
fn uma_tarefa_cujo_id_esta_no_lixo_nao_volta_a_entrar() {
    let mut store = nova_loja();
    let id = store.add("já apagada").unwrap();
    store.remove(&id).unwrap();
    let copia = store.db().trash[0].todo.clone();

    let db = Db { todos: vec![copia.clone()], trash: vec![entrada(copia)], ..Db::empty() };
    let relatorio = importar_json(&mut store, "db.json", JsonLido::Envelope(db)).unwrap();
    assert_eq!(relatorio.inseridos, 0, "o id já está na base, no lixo");
    assert_eq!(relatorio.lixo, 0);
    assert_eq!(relatorio.duplicados, 2, "a tarefa e a entrada do lixo são ambas repetidas");
    assert!(relatorio.sem_alteracoes());
    assert!(store.todos().is_empty());
    assert_eq!(store.trash_len(), 1);
}

#[test]
fn a_entrada_do_lixo_importada_nao_fica_com_categoria_pendurada() {
    let mut store = nova_loja();
    let mut orfa = Todo::try_new("órfã").unwrap();
    orfa.category_id = Some(CategoryId::new());
    let casa = Category { id: CategoryId::new(), name: "Casa".to_owned() };
    let mut de_casa = Todo::try_new("de casa").unwrap();
    de_casa.category_id = Some(casa.id.clone());
    let db = Db {
        trash: vec![entrada(orfa), entrada(de_casa)],
        categories: vec![casa.clone()],
        ..Db::empty()
    };
    let relatorio = importar_json(&mut store, "db.json", JsonLido::Envelope(db)).unwrap();
    assert_eq!(relatorio.lixo, 2);
    assert_eq!(relatorio.sem_categoria, 1, "a referência que não resolve conta");
    assert_eq!(store.db().trash[0].todo.category_id, None);
    assert_eq!(store.db().trash[1].todo.category_id, Some(casa.id.clone()));
}

#[test]
fn com_o_lixo_cheio_a_entrada_importada_conta_como_alteracao() {
    let mut store = nova_loja();
    {
        let db = store.db_mut();
        for i in 0..TRASH_LIMIT {
            db.trash.push(Trashed { todo: Todo::try_new(&format!("velha {i}")).unwrap(), index: i, deleted_at: agora(), batch: 1 });
        }
    }
    let db = Db { trash: vec![entrada(Todo::try_new("nova").unwrap())], ..Db::empty() };
    let relatorio = importar_json(&mut store, "db.json", JsonLido::Envelope(db)).unwrap();
    assert_eq!(relatorio.lixo, 1, "a entrada entrou e ficou");
    assert!(!relatorio.sem_alteracoes(), "o lixo mudou");
    assert_eq!(store.trash_len(), TRASH_LIMIT);
    assert_eq!(store.db().trash_dropped, 1);
}

#[test]
fn a_prioridade_antiga_aceita_qualquer_caixa() {
    assert_eq!(Priority::from_legacy("MÉDIA"), Some(Priority::Medium));
    assert_eq!(Priority::from_legacy("  Média "), Some(Priority::Medium));
    assert_eq!(Priority::from_legacy("ALTA"), Some(Priority::High));
    assert_eq!(Priority::from_legacy("Baixa"), Some(Priority::Low));
    assert_eq!(Priority::from_legacy("urgente"), None);
}

#[test]
fn o_cabecalho_e_lido_dos_bytes_do_ficheiro() {
    let texto = "id,title,description,done,priority,created_at,completed_at,due_at,category\n";
    assert_eq!(ler_cabecalho_csv(texto.as_bytes()).unwrap(), CSV_COLUMNS.to_vec());
    let mut store = nova_loja();
    let relatorio = importar_csv_de(&mut store, "a.csv", texto.as_bytes(), Vec::new()).unwrap();
    assert_eq!(relatorio.lidos, 0);

    let erro = importar_csv_de(&mut store, "b.csv", b"\xff\xfe,x\n", Vec::new()).expect_err("cabeçalho ilegível");
    assert!(matches!(erro, ImportError::Csv { linha: None, .. }), "{erro:?}");

    let erro = importar_csv_de(&mut store, "c.csv", b"nome,idade\n", Vec::new()).expect_err("cabeçalho errado");
    match erro {
        ImportError::Header { encontrado, .. } => assert_eq!(encontrado, ["nome", "idade"]),
        outro => panic!("erro inesperado: {outro:?}"),
    }
}
