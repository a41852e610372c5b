use todo_ratatui::dominio::import_export::{ImportError, LegacyTodo};
use todo_ratatui::dominio::importacao::RegistoJson;
use todo_ratatui::dominio::json::{
    campo_valido, classificar, importar_json_de, ler_json, registo_de, FormaJson, FormaRegisto, ValorJson,
};
use todo_ratatui::dominio::store::{Db, Store};

#[test]
fn os_bytes_dao_o_valor_e_a_forma() {
    let v = ler_json(br#"[{"id":"a","done":3},{"title":"velho"}, 7]"#).unwrap();
    match classificar(&v) {
        FormaJson::Registos(formas) => {
            assert_eq!(formas.len(), 3);
            assert!(formas[0].novo && formas[0].objeto);
            assert_eq!(formas[0].invalidos, ["done"], "`done` tem de ser lógico");
            assert!(!formas[1].novo && formas[1].objeto);
            assert!(!formas[2].objeto && !formas[2].novo);
        }
        _ => panic!("um array é uma lista de registos"),
    }
    assert!(matches!(classificar(&ler_json(br#"{"schema":3}"#).unwrap()), FormaJson::Envelope));
    assert!(matches!(classificar(&ler_json(br#"{"todos":[]}"#).unwrap()), FormaJson::SemEnvelope));
    assert!(matches!(classificar(&ler_json(b"\"texto\"").unwrap()), FormaJson::SemEnvelope));
    assert!(ler_json(b"{ nao e json").is_err());
    assert_eq!(ler_json(b"12.5").unwrap(), ValorJson::Numero("12.5".to_owned()));
}

#[test]
fn cada_campo_tem_o_seu_tipo() {
    let texto = |s: &str| ValorJson::Texto(s.to_owned());
    assert!(campo_valido("id", &texto("x")));
    assert!(!campo_valido("id", &ValorJson::Nulo));
    assert!(campo_valido("priority", &texto("high")));
    assert!(!campo_valido("priority", &texto("urgente")));
    assert!(campo_valido("created_at", &texto("2026-09-18T10:00:00+01:00")));
    assert!(!campo_valido("created_at", &texto("ontem")));
    assert!(campo_valido("completed_at", &ValorJson::Nulo));
    assert!(campo_valido("due_at", &texto("2026-09-18")));
    assert!(!campo_valido("due_at", &texto("18/09/2026")));
    assert!(campo_valido("category_id", &ValorJson::Nulo));
    assert!(campo_valido("qualquer", &ValorJson::Logico(true)));
}

#[test]
fn o_registo_novo_invalido_nomeia_o_campo() {
    let forma = FormaRegisto { novo: true, objeto: true, invalidos: vec!["created_at".to_owned()] };
    let r = registo_de(&forma, Err("invalid value".to_owned()), Err("x".to_owned()));
    match r {
        RegistoJson::NovoInvalido { campo, detalhe } => {
            assert_eq!(campo, "created_at");
            assert_eq!(detalhe, "invalid value");
        }
        _ => panic!("esperava um registo novo inválido"),
    }
    let velho = LegacyTodo { title: "t".to_owned(), description: String::new(), done: false, time: None, date: String::new() };
    let forma = FormaRegisto { novo: false, objeto: true, invalidos: Vec::new() };
    assert!(matches!(registo_de(&forma, Err("x".to_owned()), Ok(velho)), RegistoJson::Legado(_)));
}

#[test]
fn importar_json_de_bytes_que_nao_sao_json_da_erro_sem_tocar_na_base() {
    let mut store = Store::vazia("db.json".to_owned());
    let erro = importar_json_de(&mut store, "x.json", b"{ partido", Vec::new(), Err(String::new())).unwrap_err();
    assert!(matches!(erro, ImportError::Json { .. }), "{erro:?}");
    let erro = importar_json_de(&mut store, "x.json", b"{\"a\":1}", Vec::new(), Err(String::new())).unwrap_err();
    assert!(matches!(erro, ImportError::NotEnveloped { .. }), "{erro:?}");
    let relatorio =
        importar_json_de(&mut store, "x.json", b"{\"schema\":3}", Vec::new(), Ok(Db::empty())).unwrap();
    assert_eq!(relatorio.lidos, 0);
    assert!(store.todos().is_empty());
}
