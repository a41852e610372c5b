use todo_ratatui::dominio::model::{Priority, Todo, TodoError};

#[test]
fn try_new_rejeita_titulo_vazio() {
    assert_eq!(Todo::try_new("   ").unwrap_err(), TodoError::EmptyTitle);
    assert_eq!(Todo::try_new("").unwrap_err(), TodoError::EmptyTitle);
    assert!(TodoError::EmptyTitle.mensagem().contains("vazio"));
}

#[test]
fn try_new_limpa_espacos_e_gera_id_unico() {
    let a = Todo::try_new("  café  ").unwrap();
    let b = Todo::try_new("café").unwrap();
    assert_eq!(a.title, "café");
    assert_ne!(a.id, b.id, "cada tarefa tem id próprio");
    assert!(!a.is_done());
    assert!(a.completed_at.is_none());
    assert!(a.due_at.is_none());
    assert_eq!(a.priority, Priority::Medium);
}

#[test]
fn set_done_mantem_completed_at_coerente() {
    let mut todo = Todo::try_new("testar").unwrap();
    todo.set_done(true);
    let primeira = todo.completed_at.expect("concluída tem data");
    todo.set_done(true);
    assert_eq!(todo.completed_at, Some(primeira));

    todo.set_done(false);
    assert!(todo.completed_at.is_none(), "desmarcar limpa a data");

    todo.toggle();
    assert!(todo.is_done());
    assert!(todo.completed_at.is_some());
}

#[test]
fn prioridade_ordena_da_baixa_para_a_alta() {
    assert!(Priority::Low < Priority::Medium);
    assert!(Priority::Medium < Priority::High);
    let mut lista = [Priority::High, Priority::Low, Priority::Medium];
    lista.sort();
    assert_eq!(lista, [Priority::Low, Priority::Medium, Priority::High]);
    assert_eq!(Priority::ALL.len(), 3);
}

#[test]
fn from_legacy_aceita_o_formato_do_rtodo() {
    assert_eq!(Priority::from_legacy("High"), Some(Priority::High));
    assert_eq!(Priority::from_legacy(" alta "), Some(Priority::High));
    assert_eq!(Priority::from_legacy("MEDIUM"), Some(Priority::Medium));
    assert_eq!(Priority::from_legacy("baixa"), Some(Priority::Low));
    assert_eq!(Priority::from_legacy("urgente"), None);
}

#[test]
fn prioridade_tem_rotulo_rank_e_nome_em_disco() {
    assert_eq!(Priority::Low.rank(), 0);
    assert_eq!(Priority::Medium.rank(), 1);
    assert_eq!(Priority::High.rank(), 2);
    assert_eq!(Priority::High.label(), "alta");
    assert_eq!(Priority::Medium.label(), "média");
    assert_eq!(Priority::Low.label(), "baixa");
    assert_eq!(Priority::High.as_str(), "high");
    assert_eq!(Priority::Medium.as_str(), "medium");
    assert_eq!(Priority::Low.as_str(), "low");
    assert_eq!(Priority::default(), Priority::Medium);
}
