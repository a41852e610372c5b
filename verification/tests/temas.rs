use crossterm::style::{Color as CorDoTerminal, Colored};

use todo_ratatui::tui::theme::{catalogo, Cor, ModoCor, Papel, Theme, SLUG_CLASSICO, SLUG_POR_OMISSAO};

const AA_TEXTO: f64 = 4.5;
const AA_COMPONENTE: f64 = 3.0;
const FUNDO_DE_REFERENCIA: u32 = 0x1a1b26;
const FG_DO_TERMINAL: u32 = 0xa9b1d6;
const PALETA_ANSI: [(u8, u32); 4] = [(1, 0xff5555), (2, 0x50fa7b), (6, 0x8be9fd), (8, 0x6272a4)];

fn canais(hex: u32) -> (u8, u8, u8) {
    (((hex >> 16) & 0xff) as u8, ((hex >> 8) & 0xff) as u8, (hex & 0xff) as u8)
}

fn canais_de(cor: Cor) -> (u8, u8, u8) {
    match cor {
        Cor::Rgb(hex) => canais(hex),
        Cor::Indexada(indice) => {
            let (_, hex) = PALETA_ANSI
                .iter()
                .find(|(i, _)| *i == indice)
                .unwrap_or_else(|| panic!("índice {indice} não está na paleta medida"));
            canais(*hex)
        }
    }
}

fn srgb(papel: Option<Cor>) -> (u8, u8, u8) {
    papel.map_or(canais(FG_DO_TERMINAL), canais_de)
}

fn fundo_de(tema: Theme) -> (u8, u8, u8) {
    tema.bg().map_or(canais(FUNDO_DE_REFERENCIA), canais)
}

fn luminancia((r, g, b): (u8, u8, u8)) -> f64 {
    let canal = |c: u8| {
        let c = f64::from(c) / 255.0;
        if c <= 0.039_28 {
            c / 12.92
        } else {
            ((c + 0.055) / 1.055).powf(2.4)
        }
    };
    0.2126 * canal(r) + 0.7152 * canal(g) + 0.0722 * canal(b)
}

fn razao(a: (u8, u8, u8), b: (u8, u8, u8)) -> f64 {
    let (la, lb) = (luminancia(a), luminancia(b));
    let (claro, escuro) = if la >= lb { (la, lb) } else { (lb, la) };
    (claro + 0.05) / (escuro + 0.05)
}

fn cor_do_terminal(cor: Cor) -> CorDoTerminal {
    match cor {
        Cor::Rgb(hex) => {
            let (r, g, b) = canais(hex);
            CorDoTerminal::Rgb { r, g, b }
        }
        Cor::Indexada(indice) => CorDoTerminal::AnsiValue(indice),
    }
}

fn so(negrito: bool, italico: bool, riscado: bool, invertido: bool) -> Papel {
    Papel { cor: None, negrito, italico, riscado, invertido }
}

#[test]
fn catalogo_tem_slugs_unicos_e_alcancaveis_pelo_nome() {
    let cat = catalogo();
    assert_eq!(cat.len(), 4);
    assert_eq!(Theme::default().slug(), SLUG_POR_OMISSAO);
    assert_eq!(Theme::default(), cat[0]);

    let mut vistos: Vec<&str> = Vec::new();
    for tema in cat {
        assert!(!tema.slug().is_empty());
        assert!(!tema.nome().is_empty());
        assert!(!vistos.contains(&tema.slug()), "slug repetido: {}", tema.slug());
        vistos.push(tema.slug());
        assert_eq!(Theme::por_slug(tema.slug()), Some(tema));
    }
    assert_eq!(vistos.len(), cat.len());
    assert_eq!(Theme::por_slug("nao-existe"), None);
    assert_eq!(Theme::por_slug(""), None);
    assert_eq!(Theme::por_slug("Tokyo Night"), None, "o nome da caixa não é o slug do disco");
}

#[test]
fn contraste_de_cada_papel_contra_o_fundo_do_proprio_tema() {
    for tema in catalogo() {
        let fundo = fundo_de(tema);
        let p = tema.paleta();
        for (nome, papel) in [("fg", p.fg), ("accent", p.accent), ("high", p.high), ("done", p.done), ("err", p.err)] {
            let medido = razao(srgb(papel.cor), fundo);
            assert!(medido >= AA_TEXTO, "`{nome}` de `{}` mede {medido:.2}:1", tema.slug());
        }
        let regua = razao(srgb(p.rule.cor), fundo);
        assert!(regua >= AA_COMPONENTE, "a régua de `{}` mede {regua:.2}:1", tema.slug());
        let barra = razao(srgb(p.fg.cor), fundo);
        assert!(barra >= AA_TEXTO, "a barra invertida de `{}` mede {barra:.2}:1", tema.slug());
    }
}

#[test]
fn paleta_e_a_da_secao_t2() {
    let tokyo_night = [
        (SLUG_POR_OMISSAO, 0x1a1b26, 0xc0caf5, 0x7dcfff, 0xf7768e, 0x9ece6a),
        ("tokyo-night-storm", 0x24283b, 0xc0caf5, 0x7dcfff, 0xf7768e, 0x9ece6a),
        ("tokyo-night-moon", 0x222436, 0xc8d3f5, 0x86e1fc, 0xff757f, 0xc3e88d),
    ];
    for (slug, bg, fg, accent, high, done) in tokyo_night {
        let tema = Theme::por_slug(slug).expect("tema do catálogo");
        let p = tema.paleta();
        assert_eq!(tema.bg(), Some(bg), "{slug}: fundo");
        assert_eq!(p.fg.cor, Some(Cor::Rgb(fg)), "{slug}: fg");
        assert_eq!(p.accent.cor, Some(Cor::Rgb(accent)), "{slug}: accent");
        assert_eq!(p.high.cor, Some(Cor::Rgb(high)), "{slug}: high");
        assert_eq!(p.done.cor, Some(Cor::Rgb(done)), "{slug}: done");
        assert_eq!(p.rule.cor, Some(Cor::Rgb(0x737aa2)), "{slug}: rule = dark5");
        assert!(p.accent.negrito, "{slug}: accent");
        assert_eq!(p.err.cor, p.high.cor, "{slug}: err é o high");
        assert!(p.err.negrito);
        assert_eq!(p.placeholder.cor, p.fg.cor);
        assert!(p.placeholder.italico);
        assert_eq!(p.riscado.cor, p.fg.cor);
        assert!(p.riscado.riscado);
        assert_eq!(p.selec, so(false, false, false, true));
    }

    let classico = Theme::por_slug(SLUG_CLASSICO).expect("tema do catálogo");
    let p = classico.paleta();
    assert_eq!(classico.bg(), None);
    assert_eq!(p.fg, so(false, false, false, false));
    assert_eq!(p.accent.cor, Some(Cor::Indexada(6)));
    assert_eq!(p.high.cor, Some(Cor::Indexada(1)));
    assert_eq!(p.done.cor, Some(Cor::Indexada(2)));
    assert_eq!(p.rule.cor, Some(Cor::Indexada(8)));
    assert_eq!(p.err.cor, Some(Cor::Indexada(1)));
    assert!(p.err.negrito);
    assert_eq!(p.placeholder, so(false, true, false, false));
    assert_eq!(p.riscado, so(false, false, true, false));
    assert_eq!(p.selec, so(false, false, false, true));

    let sem_fundo: Vec<&str> = catalogo().iter().filter(|t| t.bg().is_none()).map(|t| t.slug()).collect();
    assert_eq!(sem_fundo, [SLUG_CLASSICO]);
}

#[test]
fn classico_emite_as_sequencias_da_v1() {
    crossterm::style::force_color_output(true);
    let p = Theme::Classico.paleta();
    for (nome, papel, esperado) in [
        ("accent", p.accent, "38;5;6"),
        ("high", p.high, "38;5;1"),
        ("done", p.done, "38;5;2"),
        ("rule", p.rule, "38;5;8"),
        ("err", p.err, "38;5;1"),
    ] {
        let cor = papel.cor.unwrap_or_else(|| panic!("o papel `{nome}` do `classico` tem cor"));
        assert_eq!(Colored::ForegroundColor(cor_do_terminal(cor)).to_string(), esperado, "{nome}");
    }
    assert_eq!(p.fg.cor, None);
    assert_eq!(p.placeholder.cor, None);
    assert_eq!(p.riscado.cor, None);
    assert!(p.placeholder.italico);
    assert!(p.riscado.riscado);

    let fg = Theme::default().paleta().fg.cor.expect("o tema por omissão tem `fg`");
    assert_eq!(Colored::ForegroundColor(cor_do_terminal(fg)).to_string(), "38;2;192;202;245");
}

#[test]
fn modo_de_cor_nao_rebaixa_tema_com_fundo() {
    let tokyo = Theme::por_slug(SLUG_POR_OMISSAO).expect("tema do catálogo");
    let classico = Theme::por_slug(SLUG_CLASSICO).expect("tema do catálogo");
    assert!(matches!(ModoCor::Auto.detectar(), ModoCor::Rgb | ModoCor::Ansi));
    assert_eq!(ModoCor::Rgb.detectar(), ModoCor::Rgb);
    assert_eq!(ModoCor::Ansi.detectar(), ModoCor::Ansi);
    assert_eq!(ModoCor::Ansi.resolver(tokyo).slug(), SLUG_CLASSICO);
    assert_eq!(ModoCor::Rgb.resolver(tokyo).slug(), SLUG_POR_OMISSAO);
    assert_eq!(ModoCor::Ansi.resolver(classico).slug(), SLUG_CLASSICO);
    assert_eq!(ModoCor::Rgb.resolver(classico).slug(), SLUG_CLASSICO);
    for tema in catalogo() {
        let esperado = if tema.bg().is_some() { SLUG_CLASSICO } else { tema.slug() };
        assert_eq!(ModoCor::Ansi.resolver(tema).slug(), esperado);
        assert_eq!(ModoCor::Rgb.resolver(tema).slug(), tema.slug());
    }
}
