//! The screen as a grid of cells: a character and the role it is drawn in.
//! The help box is laid out cell by cell, so that every column is exact,
//! and a row of cells becomes runs of one role each for the terminal.

use vstd::prelude::*;

use crate::dominio::texto::{caracteres, texto_de};
use crate::tui::app::{contexto, App};
use crate::tui::event::InputMode;

verus! {

/// The role a cell is drawn in.
#[derive(Debug, Clone, Copy, PartialEq, Eq, Structural)]
pub enum Tinta {
    /// Normal text.
    Texto,
    /// Names: of the app, of a mode, of the sections of the help.
    Destaque,
    /// Rules and frames.
    Regua,
}

/// `n` cells of the character `c` in the role `t` (none when `n` is not
/// positive).
pub open spec fn corrida(c: char, t: Tinta, n: int) -> Seq<(char, Tinta)> {
    Seq::new(if n > 0 { n as nat } else { 0 }, |_i: int| (c, t))
}

/// The characters of `s`, each in the role `t`.
pub open spec fn marcado(s: Seq<char>, t: Tinta) -> Seq<(char, Tinta)> {
    Seq::new(s.len(), |i: int| (s[i], t))
}

/// `s` cut to its first `n` cells.
pub open spec fn ate(s: Seq<(char, Tinta)>, n: nat) -> Seq<(char, Tinta)> {
    if s.len() <= n {
        s
    } else {
        s.take(n as int)
    }
}

/// The cells `cs` with `t` written from the column `col` in the role
/// `tinta`; what would fall past the end is dropped.
pub open spec fn escrita(cs: Seq<(char, Tinta)>, col: int, t: Seq<char>, tinta: Tinta) -> Seq<
    (char, Tinta),
> {
    Seq::new(
        cs.len(),
        |j: int|
            if col <= j && j < col + t.len() {
                (t[j - col], tinta)
            } else {
                cs[j]
            },
    )
}

/// Writes `texto` into the cells from the column `coluna`, in the role
/// `tinta`; the characters past the last cell are dropped.
pub fn escreve(celulas: &mut Vec<(char, Tinta)>, coluna: usize, texto: &str, tinta: Tinta)
    ensures
        final(celulas)@ == escrita(old(celulas)@, coluna as int, texto@, tinta),
{
    let cs = caracteres(texto);
    let n = celulas.len();
    if coluna >= n {
        assert(celulas@ =~= escrita(old(celulas)@, coluna as int, texto@, tinta));
        return;
    }
    let mut i: usize = 0;
    while i < cs.len() && i < n - coluna
        invariant
            coluna < n,
            celulas@.len() == n,
            old(celulas)@.len() == n,
            cs@ == texto@,
            i <= cs@.len(),
            i <= n - coluna,
            forall|j: int|
                0 <= j < n ==> #[trigger] celulas@[j] == (if coluna <= j && j < coluna + i {
                    (cs@[j - coluna], tinta)
                } else {
                    old(celulas)@[j]
                }),
        decreases cs@.len() - i,
    {
        celulas.set(coluna + i, (cs[i], tinta));
        i = i + 1;
    }
    assert(celulas@ =~= escrita(old(celulas)@, coluna as int, texto@, tinta));
}

// ------------------------------------------------------------- runs

/// The runs of a row: neighbouring cells of the same role joined, from the
/// left.
pub open spec fn juntadas(cs: Seq<(char, Tinta)>) -> Seq<(Seq<char>, Tinta)>
    decreases cs.len(),
{
    if cs.len() == 0 {
        seq![]
    } else {
        let r = juntadas(cs.drop_last());
        let c = cs.last().0;
        let t = cs.last().1;
        if r.len() > 0 && r.last().1 == t {
            r.update(r.len() - 1, (r.last().0.push(c), t))
        } else {
            r.push((seq![c], t))
        }
    }
}

/// The cells the runs `rs` stand for, one after the other.
pub open spec fn espalhadas(rs: Seq<(Seq<char>, Tinta)>) -> Seq<(char, Tinta)>
    decreases rs.len(),
{
    if rs.len() == 0 {
        seq![]
    } else {
        espalhadas(rs.drop_last()) + marcado(rs.last().0, rs.last().1)
    }
}

/// The runs as plain values.
pub open spec fn vista_das_corridas(rs: Seq<(Vec<char>, Tinta)>) -> Seq<(Seq<char>, Tinta)> {
    Seq::new(rs.len(), |k: int| (rs[k].0@, rs[k].1))
}

/// A row of cells as runs of one role each, neighbours of the same role
/// joined.
pub fn celulas_para_linha(celulas: &Vec<(char, Tinta)>) -> (r: Vec<(String, Tinta)>)
    ensures
        r@.len() == juntadas(celulas@).len(),
        forall|k: int|
            0 <= k < r@.len() ==> (#[trigger] r@[k]).0@ == juntadas(celulas@)[k].0 && r@[k].1
                == juntadas(celulas@)[k].1,
{
    let mut corridas: Vec<(Vec<char>, Tinta)> = Vec::new();
    let mut i: usize = 0;
    while i < celulas.len()
        invariant
            i <= celulas@.len(),
            vista_das_corridas(corridas@) == juntadas(celulas@.take(i as int)),
        decreases celulas@.len() - i,
    {
        let ghost antes = corridas@;
        let (c, t) = celulas[i];
        let n = corridas.len();
        assert(celulas@.take(i + 1).drop_last() =~= celulas@.take(i as int));
        assert(celulas@.take(i + 1).last() == (c, t));
        if n > 0 && corridas[n - 1].1 == t {
            let ultima = corridas.pop();
            match ultima {
                Some((mut s, t2)) => {
                    s.push(c);
                    corridas.push((s, t2));
                },
                None => {},
            }
            assert(vista_das_corridas(corridas@) =~= vista_das_corridas(antes).update(
                n - 1,
                (vista_das_corridas(antes).last().0.push(c), t),
            ));
        } else {
            let mut s: Vec<char> = Vec::new();
            s.push(c);
            corridas.push((s, t));
            assert(vista_das_corridas(corridas@) =~= vista_das_corridas(antes).push((seq![c], t)));
        }
        i = i + 1;
    }
    assert(celulas@.take(celulas@.len() as int) =~= celulas@);
    let mut r: Vec<(String, Tinta)> = Vec::new();
    let mut k: usize = 0;
    while k < corridas.len()
        invariant
            k <= corridas@.len(),
            vista_das_corridas(corridas@) == juntadas(celulas@),
            r@.len() == k,
            forall|j: int|
                0 <= j < k ==> (#[trigger] r@[j]).0@ == corridas@[j].0@ && r@[j].1 == corridas@[j].1,
        decreases corridas@.len() - k,
    {
        r.push((texto_de(&corridas[k].0), corridas[k].1));
        k = k + 1;
    }
    proof {
        assert forall|j: int| 0 <= j < r@.len() implies (#[trigger] r@[j]).0@ == juntadas(celulas@)[j].0
            && r@[j].1 == juntadas(celulas@)[j].1 by {
            assert(vista_das_corridas(corridas@)[j] == (corridas@[j].0@, corridas@[j].1));
        }
    }
    r
}

/// `marcado` of a sequence with one more character.
proof fn lemma_marcado_push(s: Seq<char>, c: char, t: Tinta)
    ensures
        marcado(s.push(c), t) == marcado(s, t).push((c, t)),
{
    assert(marcado(s.push(c), t) =~= marcado(s, t).push((c, t)));
}

/// Joining the cells of a row into runs loses nothing and joins all it can:
/// the runs, laid out again, are the cells; no run is empty; and two
/// neighbouring runs never share a role.
pub proof fn lei_juntar_celulas(cs: Seq<(char, Tinta)>)
    ensures
        espalhadas(juntadas(cs)) == cs,
        forall|k: int| 0 <= k < juntadas(cs).len() ==> (#[trigger] juntadas(cs)[k]).0.len() > 0,
        forall|k: int|
            0 <= k < juntadas(cs).len() - 1 ==> (#[trigger] juntadas(cs)[k]).1 != juntadas(cs)[k
                + 1].1,
    decreases cs.len(),
{
    if cs.len() == 0 {
        return;
    }
    let p = cs.drop_last();
    lei_juntar_celulas(p);
    let r = juntadas(p);
    let c = cs.last().0;
    let t = cs.last().1;
    if r.len() > 0 && r.last().1 == t {
        let r2 = r.update(r.len() - 1, (r.last().0.push(c), t));
        assert(juntadas(cs) == r2);
        assert(r2.drop_last() =~= r.drop_last());
        lemma_marcado_push(r.last().0, c, t);
        assert(espalhadas(r2) == espalhadas(r.drop_last()) + marcado(r.last().0, t).push((c, t)));
        assert(espalhadas(r) == espalhadas(r.drop_last()) + marcado(r.last().0, t));
        assert(espalhadas(r2) =~= espalhadas(r).push((c, t)));
        assert(cs =~= p.push(cs.last()));
        assert forall|k: int| 0 <= k < r2.len() - 1 implies (#[trigger] r2[k]).1 != r2[k + 1].1 by {
            assert(r[k].1 != r[k + 1].1);
        }
    } else {
        let r2 = r.push((seq![c], t));
        assert(juntadas(cs) == r2);
        assert(r2.drop_last() =~= r);
        assert(marcado(seq![c], t) =~= seq![(c, t)]);
        assert(cs =~= p.push(cs.last()));
        assert forall|k: int| 0 <= k < r2.len() - 1 implies (#[trigger] r2[k]).1 != r2[k + 1].1 by {
            if k < r.len() - 1 {
                assert(r[k].1 != r[k + 1].1);
            }
        }
    }
}


// ---------------------------------------------------------------- the help

/// The size of the help box, when the screen has room for it.
pub const LARGURA_AJUDA: u16 = 60;
pub const ALTURA_AJUDA: u16 = 15;
/// The columns of the two lists of keys inside the box.
pub const COLUNA_AJUDA_ESQ: usize = 2;
pub const COLUNA_AJUDA_DIR: usize = 26;

/// The rows of keys of the help, left and right: those of the list, or in
/// the trash view only the keys alive there. Row 1 names the sections.
pub open spec fn teclas_spec(lixo: bool, i: int) -> Option<(Seq<char>, Seq<char>)> {
    if lixo {
        if i == 1 {
            Some(("Navegação"@, "Lixo"@))
        } else if i == 2 {
            Some(("j / ↓  seguinte"@, "Enter  restaurar"@))
        } else if i == 3 {
            Some(("k / ↑  anterior"@, "Espaço  restaurar"@))
        } else if i == 4 {
            Some(("g / G  topo / fim"@, "c  esvaziar o lixo"@))
        } else if i == 5 {
            Some((""@, "Esc  voltar à lista"@))
        } else if i == 12 {
            Some(("Esc  fechar a ajuda"@, "q  sair"@))
        } else if 0 <= i < 13 {
            Some((""@, ""@))
        } else {
            None
        }
    } else {
        if i == 1 {
            Some(("Navegação"@, "Tarefas"@))
        } else if i == 2 {
            Some(("j / ↓  seguinte"@, "a  nova tarefa"@))
        } else if i == 3 {
            Some(("k / ↑  anterior"@, "e  editar título"@))
        } else if i == 4 {
            Some(("g / G  topo / fim"@, "Espaço  concluir"@))
        } else if i == 5 {
            Some(("1 2 3  prioridade"@, "d  remover"@))
        } else if i == 6 {
            Some(("s  ordenar"@, "u  desfazer"@))
        } else if i == 7 {
            Some(("f  filtrar"@, "t  alternar todas"@))
        } else if i == 8 {
            Some(("/  buscar"@, "c  limpar concluídas"@))
        } else if i == 9 {
            Some(("Esc  limpar busca"@, "L  ver o lixo"@))
        } else if i == 10 {
            Some((""@, "T  tema"@))
        } else if i == 11 {
            Some((""@, "i  importar · x  exportar"@))
        } else if i == 12 {
            Some(("Esc  fechar a ajuda"@, "q  sair"@))
        } else if 0 <= i < 13 {
            Some((""@, ""@))
        } else {
            None
        }
    }
}

/// The row `i` of keys of the help.
pub fn teclas_da_ajuda(lixo: bool, i: usize) -> (r: Option<(&'static str, &'static str)>)
    ensures
        match r {
            Some((e, d)) => teclas_spec(lixo, i as int) == Some((e@, d@)),
            None => teclas_spec(lixo, i as int) is None,
        },
{
    if i >= 13 {
        return None;
    }
    if lixo {
        if i == 1 {
            Some(("Navegação", "Lixo"))
        } else if i == 2 {
            Some(("j / ↓  seguinte", "Enter  restaurar"))
        } else if i == 3 {
            Some(("k / ↑  anterior", "Espaço  restaurar"))
        } else if i == 4 {
            Some(("g / G  topo / fim", "c  esvaziar o lixo"))
        } else if i == 5 {
            Some(("", "Esc  voltar à lista"))
        } else if i == 12 {
            Some(("Esc  fechar a ajuda", "q  sair"))
        } else {
            Some(("", ""))
        }
    } else {
        if i == 1 {
            Some(("Navegação", "Tarefas"))
        } else if i == 2 {
            Some(("j / ↓  seguinte", "a  nova tarefa"))
        } else if i == 3 {
            Some(("k / ↑  anterior", "e  editar título"))
        } else if i == 4 {
            Some(("g / G  topo / fim", "Espaço  concluir"))
        } else if i == 5 {
            Some(("1 2 3  prioridade", "d  remover"))
        } else if i == 6 {
            Some(("s  ordenar", "u  desfazer"))
        } else if i == 7 {
            Some(("f  filtrar", "t  alternar todas"))
        } else if i == 8 {
            Some(("/  buscar", "c  limpar concluídas"))
        } else if i == 9 {
            Some(("Esc  limpar busca", "L  ver o lixo"))
        } else if i == 10 {
            Some(("", "T  tema"))
        } else if i == 11 {
            Some(("", "i  importar · x  exportar"))
        } else if i == 12 {
            Some(("Esc  fechar a ajuda", "q  sair"))
        } else {
            Some(("", ""))
        }
    }
}

/// The top of the box, `c` columns wide: `╭── ajuda ─…─╮`.
pub open spec fn topo_da_ajuda(c: nat) -> Seq<(char, Tinta)> {
    ate(
        seq![('╭', Tinta::Regua), ('─', Tinta::Regua), ('─', Tinta::Regua)] + marcado(
            seq![' ', 'a', 'j', 'u', 'd', 'a', ' '],
            Tinta::Destaque,
        ) + corrida('─', Tinta::Regua, c - 11) + seq![('╮', Tinta::Regua)],
        c,
    )
}

/// An inner row of the box, before the keys are written: `│`, spaces, `│`.
pub open spec fn meio_da_ajuda(c: nat) -> Seq<(char, Tinta)> {
    ate(seq![('│', Tinta::Regua)] + corrida(' ', Tinta::Texto, c - 2) + seq![('│', Tinta::Regua)], c)
}

/// The bottom of the box: `╰─…─╯`.
pub open spec fn fundo_da_ajuda(c: nat) -> Seq<(char, Tinta)> {
    ate(seq![('╰', Tinta::Regua)] + corrida('─', Tinta::Regua, c - 2) + seq![('╯', Tinta::Regua)], c)
}

/// The inner row `k`: the keys of that row written at their two columns,
/// the names of the sections in the role of names.
pub open spec fn linha_de_teclas(lixo: bool, c: nat, k: int) -> Seq<(char, Tinta)> {
    match teclas_spec(lixo, k) {
        Some((e, d)) => {
            let t = if k == 1 {
                Tinta::Destaque
            } else {
                Tinta::Texto
            };
            escrita(escrita(meio_da_ajuda(c), COLUNA_AJUDA_ESQ as int, e, t), COLUNA_AJUDA_DIR as int, d, t)
        },
        None => meio_da_ajuda(c),
    }
}

/// The help box, `c` columns by `h` rows (never fewer than its top and its
/// bottom).
pub open spec fn grelha_da_ajuda(lixo: bool, c: nat, h: nat) -> Seq<Seq<(char, Tinta)>> {
    seq![topo_da_ajuda(c)] + Seq::new(
        if h >= 2 {
            (h - 2) as nat
        } else {
            0
        },
        |k: int| linha_de_teclas(lixo, c, k),
    ) + seq![fundo_da_ajuda(c)]
}

/// Pushes `n` cells of `c` in the role `t`.
fn estende(v: &mut Vec<(char, Tinta)>, c: char, t: Tinta, n: usize)
    ensures
        final(v)@ == old(v)@ + corrida(c, t, n as int),
{
    let mut i: usize = 0;
    while i < n
        invariant
            i <= n,
            v@ == old(v)@ + corrida(c, t, i as int),
        decreases n - i,
    {
        v.push((c, t));
        i = i + 1;
        assert(v@ =~= old(v)@ + corrida(c, t, i as int));
    }
}

/// Cuts `v` to its first `n` cells.
fn corta(v: &mut Vec<(char, Tinta)>, n: usize)
    ensures
        final(v)@ == ate(old(v)@, n as nat),
{
    if v.len() > n {
        v.truncate(n);
        assert(v@ =~= old(v)@.take(n as int));
    }
}

fn topo(c: usize) -> (r: Vec<(char, Tinta)>)
    ensures
        r@ == topo_da_ajuda(c as nat),
{
    let mut v: Vec<(char, Tinta)> = Vec::new();
    v.push(('╭', Tinta::Regua));
    v.push(('─', Tinta::Regua));
    v.push(('─', Tinta::Regua));
    v.push((' ', Tinta::Destaque));
    v.push(('a', Tinta::Destaque));
    v.push(('j', Tinta::Destaque));
    v.push(('u', Tinta::Destaque));
    v.push(('d', Tinta::Destaque));
    v.push(('a', Tinta::Destaque));
    v.push((' ', Tinta::Destaque));
    let ghost cabeca = v@;
    estende(&mut v, '─', Tinta::Regua, if c >= 11 { c - 11 } else { 0 });
    v.push(('╮', Tinta::Regua));
    assert(v@ =~= seq![('╭', Tinta::Regua), ('─', Tinta::Regua), ('─', Tinta::Regua)] + marcado(
        seq![' ', 'a', 'j', 'u', 'd', 'a', ' '],
        Tinta::Destaque,
    ) + corrida('─', Tinta::Regua, c - 11) + seq![('╮', Tinta::Regua)]);
    corta(&mut v, c);
    v
}

fn moldura(c: usize, canto_esq: char, meio: char, tinta_do_meio: Tinta, canto_dir: char) -> (r: Vec<(char, Tinta)>)
    ensures
        r@ == ate(
            seq![(canto_esq, Tinta::Regua)] + corrida(meio, tinta_do_meio, c - 2) + seq![(canto_dir, Tinta::Regua)],
            c as nat,
        ),
{
    let mut v: Vec<(char, Tinta)> = Vec::new();
    v.push((canto_esq, Tinta::Regua));
    estende(&mut v, meio, tinta_do_meio, if c >= 2 { c - 2 } else { 0 });
    v.push((canto_dir, Tinta::Regua));
    assert(v@ =~= seq![(canto_esq, Tinta::Regua)] + corrida(meio, tinta_do_meio, c - 2) + seq![
        (canto_dir, Tinta::Regua),
    ]);
    corta(&mut v, c);
    v
}

/// The cells of the help box, `largura` columns by `altura` rows, with the
/// keys of the trash view when `lixo` holds.
pub fn celulas_da_ajuda(lixo: bool, largura: u16, altura: u16) -> (r: Vec<Vec<(char, Tinta)>>)
    ensures
        r@.len() == grelha_da_ajuda(lixo, largura as nat, altura as nat).len(),
        forall|k: int| 0 <= k < r@.len() ==> (#[trigger] r@[k])@ == grelha_da_ajuda(lixo, largura as nat, altura as nat)[k],
{
    let c = largura as usize;
    let h = altura as usize;
    let ghost g = grelha_da_ajuda(lixo, c as nat, h as nat);
    let meio_h: usize = if h >= 2 { h - 2 } else { 0 };
    let mut linhas: Vec<Vec<(char, Tinta)>> = Vec::new();
    linhas.push(topo(c));
    let mut k: usize = 0;
    while k < meio_h
        invariant
            k <= meio_h,
            meio_h == (if h >= 2 { h - 2 } else { 0 }),
            g == grelha_da_ajuda(lixo, c as nat, h as nat),
            linhas@.len() == k + 1,
            forall|j: int| 0 <= j <= k ==> (#[trigger] linhas@[j])@ == g[j],
        decreases meio_h - k,
    {
        let mut v = moldura(c, '│', ' ', Tinta::Texto, '│');
        match teclas_da_ajuda(lixo, k) {
            Some((e, d)) => {
                let t = if k == 1 {
                    Tinta::Destaque
                } else {
                    Tinta::Texto
                };
                escreve(&mut v, COLUNA_AJUDA_ESQ, e, t);
                escreve(&mut v, COLUNA_AJUDA_DIR, d, t);
            },
            None => {},
        }
        assert(v@ == linha_de_teclas(lixo, c as nat, k as int));
        linhas.push(v);
        k = k + 1;
    }
    linhas.push(moldura(c, '╰', '─', Tinta::Regua, '╯'));
    assert(linhas@.len() == g.len());
    linhas
}

/// Where the help box stands on a screen `largura` by `altura`: centred,
/// its size the box's own or the screen's when smaller. Gives the column,
/// the row, the width and the height.
pub fn caixa_da_ajuda(largura: u16, altura: u16) -> (r: (u16, u16, u16, u16))
    ensures
        r.2 == (if largura < LARGURA_AJUDA { largura } else { LARGURA_AJUDA }),
        r.3 == (if altura < ALTURA_AJUDA { altura } else { ALTURA_AJUDA }),
        r.0 == (largura - r.2) / 2,
        r.1 == (altura - r.3) / 2,
{
    let w = if largura < LARGURA_AJUDA { largura } else { LARGURA_AJUDA };
    let h = if altura < ALTURA_AJUDA { altura } else { ALTURA_AJUDA };
    ((largura - w) / 2, (altura - h) / 2, w, h)
}

/// The help box as runs of one role per row, `largura` columns by `altura`
/// rows; under the overlay of the trash view, the keys of that view.
pub fn linhas_da_ajuda(app: &App, largura: u16, altura: u16) -> (r: Vec<Vec<(String, Tinta)>>)
    ensures
        ({
            let lixo = contexto(app.sessao@) == InputMode::Trash;
            &&& r@.len() == grelha_da_ajuda(lixo, largura as nat, altura as nat).len()
            &&& forall|k: int|
                0 <= k < r@.len() ==> (#[trigger] r@[k])@.len() == juntadas(grelha_da_ajuda(lixo, largura as nat, altura as nat)[k]).len()
            &&& forall|k: int, j: int|
            0 <= k < r@.len() && 0 <= j < r@[k]@.len() ==> (#[trigger] r@[k]@[j]).0@ == juntadas(
                grelha_da_ajuda(lixo, largura as nat, altura as nat)[k],
            )[j].0 && r@[k]@[j].1 == juntadas(grelha_da_ajuda(lixo, largura as nat, altura as nat)[k])[j].1
        }),
{
    let lixo = app.context() == InputMode::Trash;
    let celulas = celulas_da_ajuda(lixo, largura, altura);
    let ghost g = grelha_da_ajuda(lixo, largura as nat, altura as nat);
    let mut r: Vec<Vec<(String, Tinta)>> = Vec::new();
    let mut k: usize = 0;
    while k < celulas.len()
        invariant
            k <= celulas@.len(),
            celulas@.len() == g.len(),
            g == grelha_da_ajuda(lixo, largura as nat, altura as nat),
            forall|i: int| 0 <= i < celulas@.len() ==> (#[trigger] celulas@[i])@ == g[i],
            r@.len() == k,
            forall|i: int| 0 <= i < k ==> (#[trigger] r@[i])@.len() == juntadas(g[i]).len(),
            forall|i: int, j: int|
                0 <= i < k && 0 <= j < r@[i]@.len() ==> (#[trigger] r@[i]@[j]).0@ == juntadas(g[i])[j].0
                    && r@[i]@[j].1 == juntadas(g[i])[j].1,
        decreases celulas@.len() - k,
    {
        let linha = celulas_para_linha(&celulas[k]);
        r.push(linha);
        k = k + 1;
    }
    r
}

} // verus!
