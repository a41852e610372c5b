use todo_ratatui::dominio::import_export::{fundir, Candidato, PedidoCategoria};
use todo_ratatui::dominio::model::{Category, CategoryId, Priority, Todo, TodoId};
use todo_ratatui::dominio::ops::{OpsError, TRASH_LIMIT};
use todo_ratatui::dominio::store::{Store, Trashed};
use todo_ratatui::dominio::tempo::agora;
use todo_ratatui::tui::app::App;
use todo_ratatui::tui::arranque::imprimivel;
use todo_ratatui::tui::event::Action;
use todo_ratatui::tui::theme::{catalogo, ModoCor, Theme};

fn titulos(store: &Store) -> Vec<String> {
    store.todos().iter().map(|todo| todo.title.clone()).collect()
}

#[test]
fn limpar_e_desfazer_devolve_a_lista_e_o_lixo() {
    let mut store = Store::vazia("db.json".to_owned());
    let a = store.add("a").unwrap();
    store.add("b").unwrap();
    let c = store.add("c").unwrap();
    let d = store.add("d").unwrap();
    store.remove(&d).unwrap();
    store.toggle_done(&a).unwrap();
    store.toggle_done(&c).unwrap();
    let lista = store.todos().clone();
    let lixo = store.db().trash.clone();

    store.clear_completed().unwrap();
    assert_eq!(titulos(&store), ["b"]);
    store.restore_last_batch().unwrap();
    assert_eq!(*store.todos(), lista);
    assert_eq!(store.db().trash, lixo);
}

#[test]
fn remover_e_desfazer_devolve_a_lista() {
    let mut store = Store::vazia("db.json".to_owned());
    store.add("a").unwrap();
    let b = store.add("b").unwrap();
    store.add("c").unwrap();
    let lista = store.todos().clone();
    store.remove(&b).unwrap();
    assert_eq!(store.restore_last_batch().unwrap(), 1);
    assert_eq!(*store.todos(), lista);

    store.remove(&b).unwrap();
    assert_eq!(store.restore(&b).unwrap(), 1);
    assert_eq!(*store.todos(), lista);
}

#[test]
fn tres_ciclos_de_prioridade_voltam_ao_inicio() {
    let mut store = Store::vazia("db.json".to_owned());
    let id = store.add("x").unwrap();
    for inicial in [Priority::Low, Priority::Medium, Priority::High] {
        store.set_priority(&id, inicial).unwrap();
        store.cycle_priority(&id).unwrap();
        store.cycle_priority(&id).unwrap();
        assert_eq!(store.cycle_priority(&id).unwrap(), inicial);
    }
}

#[test]
fn eliminar_uma_categoria_nao_deixa_referencias() {
    let mut store = Store::vazia("db.json".to_owned());
    let casa = store.add_category("Casa").unwrap();
    let a = store.add("a").unwrap();
    let b = store.add("b").unwrap();
    store.assign_category(&a, Some(&casa)).unwrap();
    store.assign_category(&b, Some(&casa)).unwrap();
    store.remove(&b).unwrap();
    assert_eq!(store.delete_category(&casa).unwrap(), 2);
    assert!(store.todos().iter().all(|t| t.category_id.is_none()));
    assert!(store.db().trash.iter().all(|e| e.todo.category_id.is_none()));
}

#[test]
fn o_lixo_nunca_passa_do_limite_e_conta_o_que_sai() {
    let mut store = Store::vazia("db.json".to_owned());
    let mut saidas = 0;
    for i in 0..(TRASH_LIMIT + 3) {
        let id = store.add(&format!("t{i}")).unwrap();
        saidas += store.remove(&id).unwrap();
        assert!(store.trash_len() <= TRASH_LIMIT);
    }
    assert_eq!(store.trash_len(), TRASH_LIMIT);
    assert_eq!(saidas, 3, "as três mais antigas saíram e foram contadas");
    assert_eq!(store.db().trash_dropped, 3);
    assert_eq!(store.db().trash[0].todo.title, "t3");
}

#[test]
fn nomes_de_categoria_nunca_repetem_sem_olhar_a_maiusculas() {
    let mut store = Store::vazia("db.json".to_owned());
    let casa = store.add_category("Casa").unwrap();
    let trabalho = store.add_category("Trabalho").unwrap();
    assert_eq!(store.add_category("  casa ").unwrap_err(), OpsError::DuplicateName("Casa".to_owned()));
    assert_eq!(
        store.rename_category(&trabalho, "CASA").unwrap_err(),
        OpsError::DuplicateName("Casa".to_owned())
    );
    store.rename_category(&casa, "CASA").unwrap();
    let chaves: Vec<String> = store.categories().iter().map(|c| c.name.to_lowercase()).collect();
    assert_eq!(chaves, ["casa", "trabalho"]);
}

#[test]
fn importar_nao_junta_duas_categorias_com_o_mesmo_nome() {
    let mut store = Store::vazia("db.json".to_owned());
    store.add_category("Casa").unwrap();
    let mut t = Todo::try_new("vinda").unwrap();
    t.id = TodoId::from_text("v1".to_owned());
    let candidatos = vec![Candidato { todo: t, categoria: Some(PedidoCategoria::Nome(" CASA".to_owned())) }];
    let vindas = vec![Category { id: CategoryId::from_text("c9".to_owned()), name: "casa".to_owned() }];
    let frescos = vec![CategoryId::from_text("f1".to_owned())];
    let r = fundir(&mut store, candidatos, vindas, Vec::new(), 1, 0, &frescos);
    assert_eq!(r.categorias_criadas, 0);
    assert_eq!(store.categories().len(), 1, "a «casa» do ficheiro é a «Casa» daqui");
}

#[test]
fn importar_deixa_todas_as_referencias_a_resolver() {
    let mut store = Store::vazia("db.json".to_owned());
    let casa = store.add_category("Casa").unwrap();
    let a = store.add("a").unwrap();
    store.assign_category(&a, Some(&casa)).unwrap();

    let mut por_nome = Todo::try_new("por nome").unwrap();
    por_nome.id = TodoId::from_text("v1".to_owned());
    let mut por_id = Todo::try_new("por id").unwrap();
    por_id.id = TodoId::from_text("v2".to_owned());
    let mut orfa = Todo::try_new("órfã").unwrap();
    orfa.id = TodoId::from_text("v3".to_owned());
    let candidatos = vec![
        Candidato { todo: por_nome, categoria: Some(PedidoCategoria::Nome("Trabalho".to_owned())) },
        Candidato { todo: por_id, categoria: Some(PedidoCategoria::Id(CategoryId::from_text("c9".to_owned()))) },
        Candidato { todo: orfa, categoria: Some(PedidoCategoria::Id(CategoryId::from_text("nenhuma".to_owned()))) },
    ];
    let vindas = vec![Category { id: CategoryId::from_text("c9".to_owned()), name: "Lazer".to_owned() }];
    let mut no_lixo = Todo::try_new("no lixo").unwrap();
    no_lixo.id = TodoId::from_text("v4".to_owned());
    no_lixo.category_id = Some(CategoryId::from_text("perdida".to_owned()));
    let lixo = vec![Trashed { todo: no_lixo, index: 0, deleted_at: agora(), batch: 1 }];
    let frescos: Vec<CategoryId> = (0..3).map(|i| CategoryId::from_text(format!("f{i}"))).collect();
    let r = fundir(&mut store, candidatos, vindas, lixo, 4, 0, &frescos);
    assert_eq!(r.inseridos, 3);
    assert_eq!(r.sem_categoria, 2, "a órfã e a do lixo ficam sem categoria");

    let existe = |c: &Option<CategoryId>| match c {
        Some(id) => store.categories().iter().any(|k| k.id.igual(id)),
        None => true,
    };
    assert!(store.todos().iter().all(|t| existe(&t.category_id)));
    assert!(store.db().trash.iter().all(|e| existe(&e.todo.category_id)));
    assert_eq!(store.todos().iter().filter(|t| t.category_id.is_some()).count(), 3);
}

#[test]
fn a_selecao_nunca_fica_fora_da_vista() {
    let mut store = Store::vazia("db.json".to_owned());
    for t in ["a", "b", "c"] {
        store.add(t).unwrap();
    }
    let mut app = App::new(store);
    let dentro = |app: &App| match app.selecionada {
        Some(i) => i < app.visible().len(),
        None => app.visible().is_empty(),
    };
    assert!(dentro(&app));
    for accao in [Action::End, Action::Trash, Action::Down, Action::Toggle, Action::CycleFilter, Action::CycleFilter] {
        app.handle(accao);
        assert!(dentro(&app), "depois de {accao:?}: {:?} em {}", app.selecionada, app.visible().len());
    }
    app.handle(Action::End);
    app.handle(Action::Trash);
    app.handle(Action::Trash);
    assert!(dentro(&app));
}

#[test]
fn cada_tema_volta_pelo_seu_slug() {
    for t in catalogo() {
        assert_eq!(Theme::por_slug(t.slug()), Some(t));
    }
}

#[test]
fn em_ansi_nenhum_tema_com_fundo_se_desenha() {
    for t in catalogo() {
        assert!(ModoCor::Ansi.resolver_com(t).bg().is_none());
        assert_eq!(ModoCor::Rgb.resolver_com(t), t);
    }
}

#[test]
fn texto_sem_controlo_imprime_se_tal_e_qual() {
    assert_eq!(imprimivel("Clássico (ANSI) · «ok» ✓"), "Clássico (ANSI) · «ok» ✓");
}
