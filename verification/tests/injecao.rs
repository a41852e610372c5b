use ratatui::backend::TestBackend;
use ratatui::buffer::{Buffer, Cell};
use ratatui::layout::Rect;
use ratatui::text::{Line, Span};
use ratatui::widgets::{List, ListItem};
use ratatui::Terminal;

use todo_ratatui::dominio::json::{classificar, importar_json_de, ler_json, registo_de, FormaJson};
use todo_ratatui::dominio::model::{Priority, Todo, TodoId};
use todo_ratatui::dominio::store::Store;
use todo_ratatui::tui::app::App;
use todo_ratatui::tui::ui::row_line;

/// OSC 52: copies text to the clipboard of whoever reads the terminal.
const OSC: &str = "\x1b]52;c;SGVsbG8=\x07";

/// The same sequence written inside a JSON string.
const OSC_JSON: &str = r"\u001b]52;c;SGVsbG8=\u0007";

/// What is left of the sequence once the control characters are filtered.
const VISIVEL: &str = "]52;c;SGVsbG8=";

/// The cells of `buffer` that hold a control character, with their place.
fn celulas_com_controlo(buffer: &Buffer) -> Vec<(u16, u16, String)> {
    let mut encontrados = Vec::new();
    for y in 0..buffer.area.height {
        for x in 0..buffer.area.width {
            let Some(celula) = buffer.cell((x, y)) else {
                continue;
            };
            if celula.symbol().chars().any(char::is_control) {
                encontrados.push((x, y, celula.symbol().to_owned()));
            }
        }
    }
    encontrados
}

/// The list of `app` drawn on an 80x24 screen, each row from the library's
/// row text, as the program draws it.
fn desenha_a_lista(app: &App) -> Buffer {
    let mut terminal = Terminal::new(TestBackend::new(80, 24)).expect("terminal de teste");
    terminal
        .draw(|frame| {
            let area = frame.area();
            let itens: Vec<ListItem> = app
                .visible()
                .iter()
                .map(|todo| {
                    let (l, coluna) = row_line(todo, false, usize::from(area.width));
                    ListItem::new(Line::from(vec![
                        Span::raw(l.prefixo),
                        Span::raw(l.caixa),
                        Span::raw(format!("{} ", l.marca)),
                        Span::raw(l.titulo),
                        Span::raw(" ".repeat(l.espaco)),
                        Span::raw(coluna),
                    ]))
                })
                .collect();
            frame.render_widget(List::new(itens), Rect::new(0, 3, area.width, 18));
        })
        .expect("desenhar o ecrã");
    terminal.backend().buffer().clone()
}

/// The whole screen as text.
fn ecra(buffer: &Buffer) -> String {
    (0..buffer.area.height)
        .map(|y| (0..buffer.area.width).map(|x| buffer.cell((x, y)).map_or(" ", Cell::symbol)).collect::<String>())
        .collect::<Vec<_>>()
        .join("\n")
}

#[test]
fn o_detector_encontra_um_caractere_de_controlo() {
    let mut buffer = Buffer::empty(Rect::new(0, 0, 4, 1));
    buffer.cell_mut((1, 0)).expect("célula dentro do ecrã").set_symbol(OSC);

    assert_eq!(
        celulas_com_controlo(&buffer),
        vec![(1, 0, OSC.to_owned())],
        "o detector deixou passar uma célula com controlos"
    );
}

#[test]
fn o_titulo_com_escapes_vindo_da_ui_nao_poe_controlos_no_ecra() {
    let mut store = Store::vazia("db.json".to_owned());
    let titulo = format!("comprar café {OSC}");
    let mut todo = Todo::try_new(&titulo).expect("título válido");
    todo.title = titulo;
    todo.description = format!("linha 1\n{OSC}\nlinha 3");
    store.insert(todo).expect("inserir a tarefa");

    let app = App::new(store);
    let buffer = desenha_a_lista(&app);
    let texto = ecra(&buffer);

    assert!(texto.contains(VISIVEL), "o título não chegou ao ecrã — o teste estaria a passar por vazio: {texto}");
    assert_eq!(celulas_com_controlo(&buffer), Vec::new(), "o ecrã tem células com caracteres de controlo");
}

#[test]
fn o_titulo_com_escapes_vindo_do_import_tambem_nao_poe_controlos_no_ecra() {
    let texto = format!(
        r#"[
            {{
                "id": "importada-1",
                "title": "tarefa importada {OSC_JSON}",
                "description": "linha 1\nlinha 2 {OSC_JSON}",
                "done": false,
                "priority": "low",
                "created_at": "2026-09-18T10:00:00+01:00"
            }}
        ]"#
    );
    // The typed reading of the record, as the program's reader gives it.
    let mut tarefa = Todo::try_new("x").unwrap();
    tarefa.id = TodoId::from_text("importada-1".to_owned());
    tarefa.title = format!("tarefa importada {OSC}");
    tarefa.description = format!("linha 1\nlinha 2 {OSC}");
    tarefa.priority = Priority::Low;
    let valor = ler_json(texto.as_bytes()).expect("JSON");
    let registos = match classificar(&valor) {
        FormaJson::Registos(formas) => vec![registo_de(&formas[0], Ok(tarefa), Err(String::new()))],
        _ => panic!("um array é uma lista de registos"),
    };

    let mut store = Store::vazia("db.json".to_owned());
    let relatorio =
        importar_json_de(&mut store, "entrada.json", texto.as_bytes(), registos, Err(String::new())).expect("importar");
    assert_eq!(relatorio.inseridos, 1, "a tarefa entrou pelo import");
    assert!(store.todos()[0].title.contains('\x1b'), "o título guardado tem mesmo o escape — o import não valida nada");

    let app = App::new(store);
    let buffer = desenha_a_lista(&app);
    let texto = ecra(&buffer);

    assert!(texto.contains(VISIVEL), "o título importado não chegou ao ecrã: {texto}");
    assert_eq!(celulas_com_controlo(&buffer), Vec::new(), "o ecrã tem células com caracteres de controlo");
}
