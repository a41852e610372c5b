use todo_ratatui::dominio::model::{CategoryId, Priority, TodoId};
use todo_ratatui::dominio::ops::{OpsError, TRASH_LIMIT};
use todo_ratatui::dominio::store::{Db, Store, SCHEMA_VERSION};

fn store() -> Store {
    Store::vazia("db.json".to_owned())
}

fn titulos(store: &Store) -> Vec<String> {
    store.todos().iter().map(|todo| todo.title.clone()).collect()
}

#[test]
fn add_valida_e_persiste() {
    let mut store = store();
    let id = store.add("  comprar café  ").expect("adicionar");
    assert_eq!(store.add("   ").unwrap_err().mensagem(), "o título não pode estar vazio");
    assert_eq!(store.find(&id).unwrap().title, "comprar café");
    assert_eq!(store.todos().len(), 1);
    assert_eq!(store.todos()[0].id, id);
}

#[test]
fn operacoes_por_id_ignoram_a_posicao() {
    let mut store = store();
    let a = store.add("a").unwrap();
    let b = store.add("b").unwrap();
    let c = store.add("c").unwrap();

    store.edit_title(&a, "a editada").unwrap();
    store.toggle_done(&c).unwrap();
    store.remove(&b).unwrap();

    assert_eq!(titulos(&store), ["a editada", "c"]);
    assert!(store.find(&b).is_none());
    store.edit_description(&c, "nota").unwrap();
    assert_eq!(store.find(&c).unwrap().description, "nota");
}

#[test]
fn erro_explicito_quando_o_id_nao_existe() {
    let mut store = store();
    let fantasma = TodoId::new();
    for resultado in [
        store.edit_title(&fantasma, "x").map(|_| ()),
        store.toggle_done(&fantasma).map(|_| ()),
        store.set_priority(&fantasma, Priority::High),
        store.remove(&fantasma).map(|_| ()),
    ] {
        assert!(matches!(resultado, Err(OpsError::NotFound(_))));
    }
}

#[test]
fn prioridade_cicla_e_grava() {
    let mut store = store();
    let id = store.add("ciclo").unwrap();
    assert_eq!(store.find(&id).unwrap().priority, Priority::Medium);
    assert_eq!(store.cycle_priority(&id).unwrap(), Priority::High);
    assert_eq!(store.cycle_priority(&id).unwrap(), Priority::Low);
    assert_eq!(store.cycle_priority(&id).unwrap(), Priority::Medium);
    assert_eq!(store.todos()[0].priority, Priority::Medium);
}

#[test]
fn remove_guarda_indice_e_lote_no_lixo() {
    let mut store = store();
    store.add("primeira").unwrap();
    let segunda = store.add("segunda").unwrap();
    store.add("terceira").unwrap();

    assert_eq!(store.remove(&segunda).unwrap(), 0, "lixo não transbordou");
    assert_eq!(store.trash_len(), 1);
    assert!(store.find(&segunda).is_none());

    let guardada = &store.db().trash[0];
    assert_eq!(guardada.index, 1);
    assert_eq!(guardada.todo.title, "segunda");
}

#[test]
fn undo_restaura_na_posicao_original() {
    let mut store = store();
    store.add("a").unwrap();
    let b = store.add("b").unwrap();
    store.add("c").unwrap();
    let d = store.add("d").unwrap();

    store.remove(&b).unwrap();
    store.remove(&d).unwrap();
    assert_eq!(titulos(&store), ["a", "c"]);

    assert_eq!(store.restore_last_batch().unwrap(), 1);
    assert_eq!(titulos(&store), ["a", "c", "d"]);
    assert_eq!(store.restore_last_batch().unwrap(), 1);
    assert_eq!(titulos(&store), ["a", "b", "c", "d"]);
    assert!(!store.can_restore());
    assert!(matches!(store.restore_last_batch(), Err(OpsError::NothingToRestore)));
}

#[test]
fn clear_completed_e_um_lote_unico() {
    let mut store = store();
    store.add("feita 1").unwrap();
    let segunda = store.add("por fazer").unwrap();
    store.add("feita 2").unwrap();
    store.add("feita 3").unwrap();
    let ids: Vec<TodoId> = store.todos().iter().map(|t| t.id.clone()).collect();
    for id in ids {
        if id != segunda {
            store.toggle_done(&id).unwrap();
        }
    }

    let resultado = store.clear_completed().unwrap();
    assert_eq!(resultado.removidos, 3);
    assert_eq!(resultado.saidas_do_lixo, 0);
    assert_eq!(titulos(&store), ["por fazer"]);

    assert_eq!(store.restore_last_batch().unwrap(), 3);
    assert_eq!(titulos(&store), ["feita 1", "por fazer", "feita 2", "feita 3"]);
}

#[test]
fn clear_completed_sem_concluidas_nao_cria_lote() {
    let mut store = store();
    store.add("pendente").unwrap();
    let resultado = store.clear_completed().unwrap();
    assert_eq!(resultado.removidos, 0);
    assert!(!store.can_restore(), "não se cria lote vazio");
}

#[test]
fn lixo_respeita_o_limite_e_conta_o_que_saiu() {
    let mut store = store();
    let ids: Vec<TodoId> = (0..TRASH_LIMIT + 5)
        .map(|i| store.add(&format!("tarrefa {i}")).unwrap())
        .collect();

    let saidas: Vec<usize> = ids.iter().map(|id| store.remove(id).unwrap()).collect();
    assert_eq!(saidas[..TRASH_LIMIT].iter().sum::<usize>(), 0, "enquanto o lixo não enche, nada sai");
    assert!(
        saidas[TRASH_LIMIT..].iter().all(|&n| n == 1),
        "depois do limite sai exactamente uma por remoção: {saidas:?}"
    );
    assert_eq!(saidas.iter().sum::<usize>(), 5, "a contagem é devolvida a quem removeu");

    assert_eq!(store.db().trash_dropped, 5);
    assert_eq!(store.db().trash[0].todo.title, "tarrefa 5");
    assert_eq!(
        store.db().trash.last().unwrap().todo.title,
        format!("tarrefa {}", TRASH_LIMIT + 4)
    );
}

#[test]
fn edit_title_vazio_nao_altera_nada() {
    let mut store = store();
    let id = store.add("original").unwrap();
    assert!(matches!(store.edit_title(&id, "   "), Err(OpsError::EmptyTitle)));
    assert_eq!(store.find(&id).unwrap().title, "original");
}

#[test]
fn empty_trash_esvazia_o_lixo_e_devolve_quantas_sairam() {
    let mut store = store();
    assert_eq!(store.empty_trash().unwrap(), 0, "lixo vazio é `Ok(0)`");
    assert_eq!(store.empty_trash().unwrap(), 0, "e não é erro repetir");

    let a = store.add("a").unwrap();
    let b = store.add("b").unwrap();
    store.remove(&a).unwrap();
    store.remove(&b).unwrap();
    assert_eq!(store.trash_len(), 2);

    assert_eq!(store.empty_trash().unwrap(), 2);
    assert_eq!(store.trash_len(), 0);
    assert!(titulos(&store).is_empty(), "esvaziar o lixo não toca em `todos`");
    assert!(!store.can_restore());
}

#[test]
fn empty_trash_nao_repoe_a_contagem_do_transbordo() {
    let mut store = store();
    let id = store.add("a").unwrap();
    store.remove(&id).unwrap();
    store.db_mut().trash_dropped = 7;

    assert_eq!(store.empty_trash().unwrap(), 1);
    assert_eq!(store.db().trash_dropped, 7);
}

#[test]
fn restore_repoe_uma_tarefa_na_posicao_original_e_sobrevive_ao_reload() {
    let mut store = store();
    store.add("a").unwrap();
    let b = store.add("b").unwrap();
    store.add("c").unwrap();
    let d = store.add("d").unwrap();
    store.remove(&d).unwrap();
    store.remove(&b).unwrap();
    assert_eq!(titulos(&store), ["a", "c"]);

    assert_eq!(store.restore(&b).unwrap(), 1);
    assert_eq!(titulos(&store), ["a", "b", "c"]);
    assert_eq!(store.trash_len(), 1, "«d» continua no lixo");

    assert_eq!(store.restore(&d).unwrap(), 3);
    assert_eq!(titulos(&store), ["a", "b", "c", "d"]);
    assert!(!store.can_restore());
}

#[test]
fn restore_de_id_que_nao_esta_no_lixo_e_erro_sem_panic() {
    let mut store = store();
    let na_lista = store.add("na lista").unwrap();

    let erro = store.restore(&na_lista).expect_err("não está no lixo");
    assert!(matches!(erro, OpsError::NotFound(_)));
    assert!(erro.mensagem().contains("não existe nenhuma tarefa"));

    let erro = store.restore(&TodoId::new()).expect_err("id inventado");
    assert!(matches!(erro, OpsError::NotFound(_)));

    let id = store.add("removida").unwrap();
    store.remove(&id).unwrap();
    store.restore(&id).unwrap();
    assert!(matches!(store.restore(&id), Err(OpsError::NotFound(_))));
    assert_eq!(titulos(&store), ["na lista", "removida"]);
}

#[test]
fn restore_tira_so_a_entrada_indicada_do_lote() {
    let mut store = store();
    let primeira = store.add("feita 1").unwrap();
    store.add("pendente").unwrap();
    let ultima = store.add("feita 2").unwrap();
    store.toggle_done(&primeira).unwrap();
    store.toggle_done(&ultima).unwrap();

    assert_eq!(store.clear_completed().unwrap().removidos, 2);
    assert_eq!(titulos(&store), ["pendente"]);

    assert_eq!(store.restore(&primeira).unwrap(), 0);
    assert_eq!(titulos(&store), ["feita 1", "pendente"]);
    assert_eq!(store.trash_len(), 1, "a outra do lote fica no lixo");

    assert_eq!(store.restore_last_batch().unwrap(), 1);
    assert_eq!(titulos(&store), ["feita 1", "pendente", "feita 2"]);
}

fn referencias_a(db: &Db, id: &CategoryId) -> usize {
    db.todos
        .iter()
        .chain(db.trash.iter().map(|entrada| &entrada.todo))
        .filter(|todo| todo.category_id.as_ref() == Some(id))
        .count()
}

#[test]
fn categoria_valida_o_nome_e_persiste() {
    let mut store = store();
    let trabalho = store.add_category("  Trabalho  ").expect("criar");
    assert_eq!(store.category(&trabalho).unwrap().name, "Trabalho");

    let erro = store.add_category("   ").expect_err("nome vazio");
    assert!(matches!(erro, OpsError::EmptyName));
    assert_eq!(erro.mensagem(), "o nome da categoria não pode estar vazio");
    assert!(matches!(store.add_category(""), Err(OpsError::EmptyName)));

    let erro = store.add_category("trabalho").expect_err("nome repetido");
    assert!(matches!(erro, OpsError::DuplicateName(_)));
    assert!(erro.mensagem().contains("Trabalho"));
    assert_eq!(store.categories().len(), 1);
    assert_eq!(store.categories()[0].name, "Trabalho");
    assert_eq!(store.categories()[0].id, trabalho);
}

#[test]
fn rename_mantem_o_id_e_recusa_nome_repetido() {
    let mut store = store();
    let trabalho = store.add_category("Trabalho").unwrap();
    let casa = store.add_category("Casa").unwrap();
    let tarefa = store.add("comprar café").unwrap();
    store.assign_category(&tarefa, Some(&trabalho)).unwrap();

    store.rename_category(&trabalho, "  Trabalho pessoal  ").expect("renomear");
    assert_eq!(store.category(&trabalho).unwrap().name, "Trabalho pessoal");
    assert_eq!(store.find(&tarefa).unwrap().category_id.as_ref(), Some(&trabalho));
    assert_eq!(store.categories()[0].name, "Trabalho pessoal");

    let erro = store.rename_category(&casa, "trabalho PESSOAL").expect_err("nome repetido");
    assert!(matches!(erro, OpsError::DuplicateName(_)));
    assert!(erro.mensagem().contains("Trabalho pessoal"));
    assert_eq!(store.category(&casa).unwrap().name, "Casa");

    store.rename_category(&casa, "CASA").expect("corrigir");
    assert_eq!(store.category(&casa).unwrap().name, "CASA");

    assert!(matches!(store.rename_category(&casa, "   "), Err(OpsError::EmptyName)));
    assert_eq!(store.category(&casa).unwrap().name, "CASA");

    let antes = store.db().clone();
    let fantasma = CategoryId::new();
    let erro = store.rename_category(&fantasma, "Nova").expect_err("categoria inexistente");
    assert!(matches!(erro, OpsError::CategoryNotFound(_)));
    assert!(erro.mensagem().contains("não existe nenhuma categoria"));
    assert_eq!(*store.db(), antes);
}

#[test]
fn delete_category_limpa_as_referencias_da_lista_e_do_lixo() {
    let mut store = store();
    let trabalho = store.add_category("Trabalho").unwrap();
    let casa = store.add_category("Casa").unwrap();

    for titulo in ["a", "b", "c"] {
        let id = store.add(titulo).unwrap();
        store.assign_category(&id, Some(&trabalho)).unwrap();
    }
    let no_lixo = store.add("d").unwrap();
    store.assign_category(&no_lixo, Some(&trabalho)).unwrap();
    store.remove(&no_lixo).unwrap();
    let outra = store.add("e").unwrap();
    store.assign_category(&outra, Some(&casa)).unwrap();
    let sem = store.add("f").unwrap();

    assert_eq!(store.delete_category(&trabalho).expect("eliminar"), 4, "3 na lista + 1 no lixo");

    assert!(store.category(&trabalho).is_none());
    assert_eq!(store.categories().len(), 1);
    assert_eq!(store.categories()[0].id, casa);
    assert_eq!(referencias_a(store.db(), &trabalho), 0);
    assert_eq!(titulos(&store), ["a", "b", "c", "e", "f"]);
    assert_eq!(store.find(&outra).unwrap().category_id.as_ref(), Some(&casa));
    assert!(store.find(&sem).unwrap().category_id.is_none());
    assert_eq!(store.trash_len(), 1);
    assert_eq!(store.db().trash[0].todo.title, "d");
    assert!(store.db().trash[0].todo.category_id.is_none());

    let antes = store.db().clone();
    let erro = store.delete_category(&trabalho).expect_err("já não existe");
    assert!(matches!(erro, OpsError::CategoryNotFound(_)));
    assert_eq!(*store.db(), antes);
}

#[test]
fn assign_category_valida_antes_de_tocar_na_db() {
    let mut store = store();
    let trabalho = store.add_category("Trabalho").unwrap();
    let tarefa = store.add("comprar café").unwrap();
    let outra = store.add("pagar contas").unwrap();

    store.assign_category(&tarefa, Some(&trabalho)).unwrap();
    assert_eq!(store.find(&tarefa).unwrap().category_id.as_ref(), Some(&trabalho));
    assert!(store.find(&outra).unwrap().category_id.is_none());

    store.assign_category(&tarefa, None).unwrap();
    assert!(store.find(&tarefa).unwrap().category_id.is_none());

    store.assign_category(&tarefa, Some(&trabalho)).unwrap();

    let antes = store.db().clone();
    let erro = store.assign_category(&tarefa, Some(&CategoryId::new())).expect_err("categoria inexistente");
    assert!(matches!(erro, OpsError::CategoryNotFound(_)));
    assert_eq!(*store.db(), antes);
    assert_eq!(store.find(&tarefa).unwrap().category_id.as_ref(), Some(&trabalho));

    let erro = store.assign_category(&TodoId::new(), Some(&trabalho)).expect_err("tarefa inexistente");
    assert!(matches!(erro, OpsError::NotFound(_)));
    assert_eq!(*store.db(), antes);
}

#[test]
fn ficheiro_inexistente_abre_vazio() {
    let store = Store::vazia("/tmp/tr-vazio/db.json".to_owned());
    assert!(store.todos().is_empty());
    assert_eq!(store.db().schema, SCHEMA_VERSION);
    assert_eq!(store.db().trash, Vec::new());
}
