//! Measures and texts of the screen: cutting a text to a number of columns,
//! shortening a path for the status line, the age of a date, the mark of a
//! priority. Columns are measured as the terminal shows them (`café` is four
//! columns, an ideogram two), never in bytes.

use vstd::prelude::*;

use crate::dominio::import_export::{juntado, juntar_com, vistas};
use crate::dominio::model::{rotulo, Category, CategoryId, Priority};
use crate::dominio::ops::{pendentes_de, TRASH_LIMIT};
use crate::dominio::query::{concluidas_de, rotulo_da_ordem, rotulo_do_filtro};
use crate::tui::app::{selecao, vista_app, App, Guarda, Status, UNDO_HINT};
use crate::tui::event::{e_texto, rotulo_do_modo, sugestao_do_modo, InputMode};
use crate::dominio::model::Todo;
use crate::dominio::store::Trashed;
use crate::dominio::tempo::{data_de, data_do_instante, data_e_hora, data_iso, escrever_data, escrever_data_e_hora, hoje, Data};
use crate::dominio::texto::{caracteres, decimal, empurrar, em_decimal, encontrar, lemma_ocorrencia, ocorrencia_desde, texto_de};

verus! {

// ------------------------------------------------------------- the widths

/// The columns `unicode-width` gives a character (`UnicodeWidthChar::width`),
/// `None` for a control character.
pub uninterp spec fn largura_do_caracter(c: char) -> Option<usize>;

/// The columns `unicode-width` gives a text (`UnicodeWidthStr::width`).
pub uninterp spec fn largura_do_texto(s: Seq<char>) -> usize;

/// `UnicodeWidthChar::width`. The source shows that a control character
/// (below U+0020, or from U+007F to U+009F) has none and a printable ASCII
/// character has one column; the other widths come from Unicode's tables.
#[verifier::external_body]
fn largura_caracter(c: char) -> (r: Option<usize>)
    ensures
        r == largura_do_caracter(c),
        ((c as u32) < 0x20 || (0x7f <= (c as u32) && (c as u32) < 0xa0)) <==> r is None,
        0x20 <= (c as u32) && (c as u32) < 0x7f ==> r == Some(1usize),
{
    unicode_width::UnicodeWidthChar::width(c)
}

/// `UnicodeWidthStr::width`: the columns of a whole text, which for some
/// sequences (emoji joined, variation selectors) is not the sum of those of
/// its characters.
#[verifier::external_body]
pub fn largura(s: &str) -> (r: usize)
    ensures
        r == largura_do_texto(s@),
{
    unicode_width::UnicodeWidthStr::width(s)
}

// ------------------------------------------------------------ cutting text

/// The columns a character takes when cutting: a control character none.
pub open spec fn colunas_de(c: char) -> int {
    match largura_do_caracter(c) {
        Some(w) => w as int,
        None => 0,
    }
}

/// The longest prefix of `s` whose characters fit in `limite` columns, when
/// `usado` are already taken.
pub open spec fn prefixo_que_cabe(s: Seq<char>, limite: int, usado: int) -> Seq<char>
    decreases s.len(),
{
    if s.len() == 0 {
        seq![]
    } else if usado + colunas_de(s[0]) > limite {
        seq![]
    } else {
        seq![s[0]] + prefixo_que_cabe(s.drop_first(), limite, usado + colunas_de(s[0]))
    }
}

/// `texto` cut to `largura` columns: whole when it fits, otherwise the
/// characters that fit in one column less, and `…`.
pub open spec fn cortado(texto: Seq<char>, largura: nat) -> Seq<char> {
    if largura_do_texto(texto) <= largura {
        texto
    } else {
        prefixo_que_cabe(texto, if largura == 0 { 0 } else { largura - 1 }, 0).push('…')
    }
}

/// The characters of `v` that fit in `limite` columns, from the start.
fn prefixo_em_colunas(v: &Vec<char>, limite: usize) -> (r: Vec<char>)
    ensures
        r@ == prefixo_que_cabe(v@, limite as int, 0),
{
    let mut saida: Vec<char> = Vec::new();
    let mut usado: usize = 0;
    let mut i: usize = 0;
    let mut parou = false;
    assert(v@.subrange(0, v@.len() as int) =~= v@);
    assert(saida@ + prefixo_que_cabe(v@, limite as int, 0) =~= prefixo_que_cabe(v@, limite as int, 0));
    while i < v.len() && !parou
        invariant
            0 <= i <= v@.len(),
            usado <= limite,
            parou ==> prefixo_que_cabe(v@.subrange(i as int, v@.len() as int), limite as int, usado as int)
                == Seq::<char>::empty(),
            prefixo_que_cabe(v@, limite as int, 0) == saida@ + prefixo_que_cabe(
                v@.subrange(i as int, v@.len() as int),
                limite as int,
                usado as int,
            ),
        decreases (v@.len() - i) * 2 + (if parou {
            0int
        } else {
            1int
        }),
    {
        let resto = Ghost(v@.subrange(i as int, v@.len() as int));
        assert(resto@[0] == v@[i as int]);
        assert(resto@.drop_first() =~= v@.subrange(i + 1, v@.len() as int));
        let c = v[i];
        let colunas = match largura_caracter(c) {
            Some(w) => w,
            None => 0,
        };
        if colunas > limite - usado {
            parou = true;
        } else {
            let ghost antes = saida@;
            saida.push(c);
            usado = usado + colunas;
            i = i + 1;
            assert(saida@ =~= antes + seq![c]);
        }
    }
    proof {
        if !parou {
            assert(v@.subrange(i as int, v@.len() as int) =~= Seq::<char>::empty());
        }
        assert(saida@ + Seq::<char>::empty() =~= saida@);
    }
    saida
}

/// What fits is a prefix of the text.
proof fn lemma_prefixo(s: Seq<char>, limite: int, usado: int)
    ensures
        prefixo_que_cabe(s, limite, usado).len() <= s.len(),
        prefixo_que_cabe(s, limite, usado) == s.take(prefixo_que_cabe(s, limite, usado).len() as int),
    decreases s.len(),
{
    if s.len() > 0 && usado + colunas_de(s[0]) <= limite {
        lemma_prefixo(s.drop_first(), limite, usado + colunas_de(s[0]));
        let p = prefixo_que_cabe(s.drop_first(), limite, usado + colunas_de(s[0]));
        assert(seq![s[0]] + s.drop_first().take(p.len() as int) =~= s.take(p.len() as int + 1));
    } else {
        assert(s.take(0) =~= Seq::<char>::empty());
    }
}

/// The columns of the characters of `s`, counted one by one.
pub open spec fn colunas_somadas(s: Seq<char>) -> int
    decreases s.len(),
{
    if s.len() == 0 {
        0
    } else {
        colunas_de(s[0]) + colunas_somadas(s.drop_first())
    }
}

proof fn lemma_prefixo_colunas(s: Seq<char>, limite: int, usado: int)
    requires
        usado <= limite,
    ensures
        usado + colunas_somadas(prefixo_que_cabe(s, limite, usado)) <= limite,
    decreases s.len(),
{
    if s.len() > 0 && usado + colunas_de(s[0]) <= limite {
        let p = prefixo_que_cabe(s.drop_first(), limite, usado + colunas_de(s[0]));
        lemma_prefixo_colunas(s.drop_first(), limite, usado + colunas_de(s[0]));
        assert((seq![s[0]] + p).drop_first() =~= p);
    }
}

/// A text that does not fit is cut on a character boundary: what is kept is
/// a prefix of the text whose characters, counted one by one, take at most
/// one column less than `largura`, and `…` follows it. A text that fits
/// stays whole.
pub proof fn lei_cortar_mantem_um_prefixo(texto: Seq<char>, largura: nat)
    ensures
        largura_do_texto(texto) <= largura ==> cortado(texto, largura) == texto,
        largura_do_texto(texto) > largura ==> {
            let r = cortado(texto, largura);
            &&& r.len() > 0
            &&& r.last() == '…'
            &&& r.drop_last() == texto.take(r.len() - 1)
            &&& colunas_somadas(r.drop_last()) <= if largura == 0 {
                0
            } else {
                largura - 1
            }
        },
{
    let limite: int = if largura == 0 {
        0
    } else {
        largura - 1
    };
    lemma_prefixo(texto, limite, 0);
    lemma_prefixo_colunas(texto, limite, 0);
    let p = prefixo_que_cabe(texto, limite, 0);
    assert(p.push('…').drop_last() =~= p);
}

/// `texto` cut to `largura` columns, with `…` at the end when it is cut.
/// Columns are counted, not bytes nor characters.
pub fn cortar(texto: &str, largura: usize) -> (r: String)
    ensures
        r@ == cortado(texto@, largura as nat),
{
    if self::largura(texto) <= largura {
        return texto.to_owned();
    }
    let v = caracteres(texto);
    let mut saida = prefixo_em_colunas(&v, largura.saturating_sub(1));
    saida.push('…');
    texto_de(&saida)
}

// ------------------------------------------------------ cutting at words

/// Whether `char::is_alphanumeric` holds of `c` (a letter or a digit, in
/// Unicode's tables).
pub uninterp spec fn alfanumerico(c: char) -> bool;

/// `char::is_alphanumeric`. Its documentation makes the ASCII letters and
/// digits alphanumeric and the other ASCII characters not.
#[verifier::external_body]
fn e_alfanumerico(c: char) -> (r: bool)
    ensures
        r == alfanumerico(c),
        (c as u32) < 0x80 ==> (r <==> (('0' <= c && c <= '9') || ('a' <= c && c <= 'z') || ('A' <= c && c
            <= 'Z'))),
{
    c.is_alphanumeric()
}

/// The last position, from `n` down, where `s` can be cut without
/// splitting a word: the end of the text, or a character that is not a
/// letter or a digit; none (0) when there is no such place.
pub open spec fn corte_em_palavra(s: Seq<char>, n: int) -> int
    decreases n,
{
    if n <= 0 {
        0
    } else if n < s.len() && alfanumerico(s[n]) {
        corte_em_palavra(s, n - 1)
    } else {
        n
    }
}

/// `texto` cut to `largura` columns with `…`, where a word ends; a single
/// word too long for the line is cut where the columns run out.
pub open spec fn cortado_em_palavra(texto: Seq<char>, largura: nat) -> Seq<char> {
    let n = prefixo_que_cabe(texto, if largura == 0 { 0 } else { largura - 1 }, 0).len() as int;
    let k = corte_em_palavra(texto, n);
    texto.take(if k > 0 { k } else { n }).push('…')
}

fn cortar_em_palavra(v: &Vec<char>, largura: usize) -> (r: Vec<char>)
    ensures
        r@ == cortado_em_palavra(v@, largura as nat),
{
    let limite = largura.saturating_sub(1);
    let p = prefixo_em_colunas(v, limite);
    proof {
        lemma_prefixo(v@, limite as int, 0);
    }
    let n = p.len();
    let mut k = n;
    while k > 0 && k < v.len() && e_alfanumerico(v[k])
        invariant
            k <= n <= v@.len(),
            corte_em_palavra(v@, n as int) == corte_em_palavra(v@, k as int),
        decreases k,
    {
        k = k - 1;
    }
    let fim = if k > 0 {
        k
    } else {
        n
    };
    let mut r: Vec<char> = Vec::new();
    let mut i: usize = 0;
    while i < fim
        invariant
            i <= fim <= v@.len(),
            r@ == v@.take(i as int),
        decreases fim - i,
    {
        r.push(v[i]);
        i = i + 1;
        assert(r@ =~= v@.take(i as int));
    }
    r.push('…');
    r
}

// --------------------------------------------------------- shortening paths

/// `s` with every occurrence of `de` replaced by `para`, from left to right
/// (`str::replace`; an empty `de` matches between every two characters).
pub open spec fn substituido(s: Seq<char>, de: Seq<char>, para: Seq<char>) -> Seq<char>
    decreases s.len(),
{
    if de.len() == 0 {
        if s.len() == 0 {
            para
        } else {
            para + seq![s[0]] + substituido(s.drop_first(), de, para)
        }
    } else if s.len() < de.len() {
        s
    } else if s.subrange(0, de.len() as int) == de {
        para + substituido(s.subrange(de.len() as int, s.len() as int), de, para)
    } else {
        seq![s[0]] + substituido(s.drop_first(), de, para)
    }
}

proof fn lemma_substituido_sem_par(s: Seq<char>, de: Seq<char>, para: Seq<char>)
    requires
        de.len() > 0,
        s.len() > 0,
        !(s.len() >= de.len() && s.subrange(0, de.len() as int) == de),
    ensures
        substituido(s, de, para) == seq![s[0]] + substituido(s.drop_first(), de, para),
{
    if s.len() < de.len() {
        assert(substituido(s.drop_first(), de, para) == s.drop_first());
        assert(seq![s[0]] + s.drop_first() =~= s);
    }
}

fn substituir(s: &Vec<char>, de: &Vec<char>, para: &Vec<char>) -> (r: Vec<char>)
    ensures
        r@ == substituido(s@, de@, para@),
    decreases s@.len(),
{
    let mut out: Vec<char> = Vec::new();
    let mut i: usize = 0;
    let n = s.len();
    let d = de.len();
    assert(s@.subrange(0, n as int) =~= s@);
    assert(out@ + substituido(s@, de@, para@) =~= substituido(s@, de@, para@));
    while i < n
        invariant
            0 <= i <= n,
            n == s@.len(),
            d == de@.len(),
            substituido(s@, de@, para@) == out@ + substituido(s@.subrange(i as int, n as int), de@, para@),
        decreases n - i,
    {
        let ghost resto = s@.subrange(i as int, n as int);
        let ghost antes = out@;
        let pode = d > 0 && d <= n - i;
        let mut casa = pode;
        let mut k: usize = 0;
        while casa && k < d
            invariant
                pode ==> (d > 0 && i + d <= n),
                casa ==> pode,
                n == s@.len(),
                d == de@.len(),
                0 <= k <= d,
                casa ==> forall|q: int| 0 <= q < k ==> s@[i + q] == de@[q],
                (pode && !casa) ==> exists|q: int| 0 <= q < k && s@[i + q] != de@[q],
            decreases d - k,
        {
            if s[i + k] != de[k] {
                casa = false;
            }
            k = k + 1;
        }
        if pode {
            if casa {
                assert(resto.subrange(0, d as int) =~= de@);
            } else {
                proof {
                    let q = choose|q: int| 0 <= q < k && s@[i + q] != de@[q];
                    assert(resto.subrange(0, d as int)[q] != de@[q]);
                }
            }
        }
        if casa {
            let mut j: usize = 0;
            while j < para.len()
                invariant
                    0 <= j <= para@.len(),
                    out@ == antes + para@.subrange(0, j as int),
                decreases para@.len() - j,
            {
                out.push(para[j]);
                j = j + 1;
                assert(out@ =~= antes + para@.subrange(0, j as int));
            }
            assert(para@.subrange(0, para@.len() as int) =~= para@);
            assert(resto.subrange(d as int, resto.len() as int) =~= s@.subrange(i + d, n as int));
            i = i + d;
        } else if d == 0 {
            let mut j: usize = 0;
            while j < para.len()
                invariant
                    0 <= j <= para@.len(),
                    out@ == antes + para@.subrange(0, j as int),
                decreases para@.len() - j,
            {
                out.push(para[j]);
                j = j + 1;
                assert(out@ =~= antes + para@.subrange(0, j as int));
            }
            assert(para@.subrange(0, para@.len() as int) =~= para@);
            out.push(s[i]);
            assert(resto.drop_first() =~= s@.subrange(i + 1, n as int));
            assert(out@ =~= antes + para@ + seq![resto[0]]);
            i = i + 1;
        } else {
            proof {
                lemma_substituido_sem_par(resto, de@, para@);
            }
            out.push(s[i]);
            assert(resto.drop_first() =~= s@.subrange(i + 1, n as int));
            assert(out@ =~= antes + seq![resto[0]]);
            i = i + 1;
        }
    }
    if d == 0 {
        let ghost antes = out@;
        let mut j: usize = 0;
        while j < para.len()
            invariant
                0 <= j <= para@.len(),
                out@ == antes + para@.subrange(0, j as int),
            decreases para@.len() - j,
        {
            out.push(para[j]);
            j = j + 1;
            assert(out@ =~= antes + para@.subrange(0, j as int));
        }
        assert(para@.subrange(0, para@.len() as int) =~= para@);
    }
    assert(s@.subrange(n as int, n as int) =~= Seq::<char>::empty());
    out
}

/// The pieces of `s` between the `/`, scanning from `i`, the current piece
/// beginning at `inicio` (`str::split('/')`).
pub open spec fn pedacos_desde(s: Seq<char>, inicio: int, i: int) -> Seq<Seq<char>>
    decreases s.len() - i,
{
    if i >= s.len() {
        seq![s.subrange(inicio, s.len() as int)]
    } else if s[i] == '/' {
        seq![s.subrange(inicio, i)] + pedacos_desde(s, i + 1, i + 1)
    } else {
        pedacos_desde(s, inicio, i + 1)
    }
}

/// The pieces of `s` between the `/`.
pub open spec fn pedacos(s: Seq<char>) -> Seq<Seq<char>> {
    pedacos_desde(s, 0, 0)
}

fn partir(s: &Vec<char>) -> (r: Vec<String>)
    ensures
        vistas(r@) == pedacos(s@),
{
    let n = s.len();
    let mut r: Vec<String> = Vec::new();
    let mut atual: Vec<char> = Vec::new();
    let mut inicio: usize = 0;
    let mut i: usize = 0;
    while i < n
        invariant
            n == s@.len(),
            0 <= inicio <= i <= n,
            atual@ == s@.subrange(inicio as int, i as int),
            pedacos(s@) == vistas(r@) + pedacos_desde(s@, inicio as int, i as int),
        decreases n - i,
    {
        if s[i] == '/' {
            let ghost antes = r@;
            let ghost io = inicio as int;
            let ghost iv = i as int;
            assert(pedacos_desde(s@, io, iv) == seq![s@.subrange(io, iv)] + pedacos_desde(s@, iv + 1, iv + 1));
            r.push(texto_de(&atual));
            assert(vistas(r@) =~= vistas(antes).push(s@.subrange(io, iv)));
            atual = Vec::new();
            inicio = i + 1;
            i = i + 1;
            assert(atual@ =~= s@.subrange(inicio as int, i as int));
            assert(vistas(antes) + pedacos_desde(s@, io, iv) =~= vistas(r@) + pedacos_desde(
                s@,
                inicio as int,
                i as int,
            ));
        } else {
            assert(pedacos_desde(s@, inicio as int, i as int) == pedacos_desde(s@, inicio as int, i + 1));
            atual.push(s[i]);
            i = i + 1;
            assert(atual@ =~= s@.subrange(inicio as int, i as int));
        }
    }
    let ghost antes = r@;
    r.push(texto_de(&atual));
    assert(vistas(r@) =~= vistas(antes).push(s@.subrange(inicio as int, n as int)));
    r
}

/// The path cut from the left, part by part, until it fits: each round
/// drops the first part; the last part (the file name) always stays.
pub open spec fn reduzido(cabeca: Seq<char>, partes: Seq<Seq<char>>, largura: nat) -> Seq<char>
    decreases partes.len(),
{
    if partes.len() > 1 {
        let resto = partes.drop_first();
        let candidato = cabeca + "…/"@ + juntado(resto, "/"@);
        if largura_do_texto(candidato) <= largura {
            candidato
        } else {
            reduzido(cabeca, resto, largura)
        }
    } else {
        cabeca + "…/"@ + juntado(partes, "/"@)
    }
}

/// The text of the status line ready to write: the home directory becomes
/// `~`, and if it still does not fit, the path inside it is cut from the
/// left with `…`, because in a path the useful part is the end; a text
/// without a path is cut with `…` where a word ends.
pub open spec fn abreviado(texto: Seq<char>, largura: nat, casa: Option<Seq<char>>) -> Seq<char> {
    let a = match casa {
        Some(c) => substituido(texto, c, "~"@),
        None => texto,
    };
    if largura_do_texto(a) <= largura {
        a
    } else {
        let inicio = match ocorrencia_desde(a, "~/"@, 0) {
            Some(i) => Some(i),
            None => ocorrencia_desde(a, "/"@, 0),
        };
        match inicio {
            None => cortado_em_palavra(a, largura),
            Some(i) => reduzido(
                a.subrange(0, i),
                pedacos(a.subrange(i, a.len() as int)).drop_first(),
                largura,
            ),
        }
    }
}

fn de_texto(s: &str) -> (r: Vec<char>)
    ensures
        r@ == s@,
{
    caracteres(s)
}

/// `texto` shortened to `largura` columns for the status line, with
/// `casa` (the home directory) shown as `~`.
pub fn abreviar_com_casa(texto: &str, largura: usize, casa: Option<&str>) -> (r: String)
    ensures
        r@ == abreviado(texto@, largura as nat, match casa {
            Some(c) => Some(c@),
            None => None,
        }),
{
    let t = de_texto(texto);
    let a: Vec<char> = match casa {
        Some(c) => {
            let til = de_texto("~");
            substituir(&t, &de_texto(c), &til)
        },
        None => t,
    };
    let abreviado_ = texto_de(&a);
    if self::largura(abreviado_.as_str()) <= largura {
        return abreviado_;
    }
    let inicio = match encontrar(&a, &de_texto("~/")) {
        Some(i) => Some(i),
        None => encontrar(&a, &de_texto("/")),
    };
    let i = match inicio {
        None => return texto_de(&cortar_em_palavra(&a, largura)),
        Some(i) => i,
    };
    proof {
        lemma_ocorrencia(a@, "~/"@, 0);
        lemma_ocorrencia(a@, "/"@, 0);
    }
    let mut cabeca: Vec<char> = Vec::new();
    let mut k: usize = 0;
    while k < i
        invariant
            0 <= k <= i <= a@.len(),
            cabeca@ == a@.subrange(0, k as int),
        decreases i - k,
    {
        cabeca.push(a[k]);
        k = k + 1;
        assert(cabeca@ =~= a@.subrange(0, k as int));
    }
    let mut cauda: Vec<char> = Vec::new();
    let mut k: usize = i;
    while k < a.len()
        invariant
            i <= k <= a@.len(),
            cauda@ == a@.subrange(i as int, k as int),
        decreases a@.len() - k,
    {
        cauda.push(a[k]);
        k = k + 1;
        assert(cauda@ =~= a@.subrange(i as int, k as int));
    }
    let cabeca = texto_de(&cabeca);
    let mut partes = partir(&cauda);
    let ghost p0 = vistas(partes@);
    let ghost alvo = abreviado(texto@, largura as nat, match casa {
        Some(c) => Some(c@),
        None => None,
    });
    proof {
        lemma_pedacos_nao_vazio(cauda@, 0, 0);
        assert(alvo == reduzido(cabeca@, p0.drop_first(), largura as nat));
    }
    partes.remove(0);
    assert(vistas(partes@) =~= p0.drop_first());
    while partes.len() > 1
        invariant
            alvo == reduzido(cabeca@, vistas(partes@), largura as nat),
            alvo == abreviado(texto@, largura as nat, match casa {
                Some(c) => Some(c@),
                None => None,
            }),
        decreases partes@.len(),
    {
        let ghost antes = vistas(partes@);
        partes.remove(0);
        assert(vistas(partes@) =~= antes.drop_first());
        let mut candidato = cabeca.clone();
        candidato.append("…/");
        candidato.append(juntar_com(&partes, "/").as_str());
        assert(candidato@ =~= cabeca@ + "…/"@ + juntado(antes.drop_first(), "/"@));
        if self::largura(candidato.as_str()) <= largura {
            return candidato;
        }
    }
    let mut fim = cabeca.clone();
    fim.append("…/");
    fim.append(juntar_com(&partes, "/").as_str());
    fim
}

proof fn lemma_pedacos_nao_vazio(s: Seq<char>, inicio: int, i: int)
    ensures
        pedacos_desde(s, inicio, i).len() >= 1,
    decreases s.len() - i,
{
    if i < s.len() {
        if s[i] == '/' {
            lemma_pedacos_nao_vazio(s, i + 1, i + 1);
        } else {
            lemma_pedacos_nao_vazio(s, inicio, i + 1);
        }
    }
}

// ----------------------------------------------------------------- marks

pub open spec fn marca_spec(p: Priority) -> char {
    match p {
        Priority::High => 'H',
        Priority::Medium => 'M',
        Priority::Low => 'L',
    }
}

/// The letter of a priority in the list: `H`, `M`, `L`.
pub fn marca_de_prioridade(prioridade: Priority) -> (r: char)
    ensures
        r == marca_spec(prioridade),
{
    match prioridade {
        Priority::High => 'H',
        Priority::Medium => 'M',
        Priority::Low => 'L',
    }
}

/// What `char::to_uppercase` gives for `c`: one or more characters.
pub uninterp spec fn maiusculas_do_caracter(c: char) -> Seq<char>;

/// `char::to_uppercase`, collected.
#[verifier::external_body]
fn maiusculas_de(c: char) -> (r: String)
    ensures
        r@ == maiusculas_do_caracter(c),
{
    c.to_uppercase().collect()
}

/// `texto` with its first character in upper case.
pub open spec fn com_maiuscula_spec(s: Seq<char>) -> Seq<char> {
    if s.len() == 0 {
        seq![]
    } else {
        maiusculas_do_caracter(s[0]) + s.drop_first()
    }
}

/// `texto` with its first character in upper case (`alta` gives `Alta`).
pub fn com_maiuscula(texto: &str) -> (r: String)
    ensures
        r@ == com_maiuscula_spec(texto@),
{
    let v = caracteres(texto);
    if v.len() == 0 {
        return String::new();
    }
    let mut r = maiusculas_de(v[0]);
    let mut i: usize = 1;
    let mut resto: Vec<char> = Vec::new();
    while i < v.len()
        invariant
            1 <= i <= v@.len(),
            v@ == texto@,
            resto@ == v@.subrange(1, i as int),
        decreases v@.len() - i,
    {
        resto.push(v[i]);
        i = i + 1;
        assert(resto@ =~= v@.subrange(1, i as int));
    }
    assert(v@.drop_first() =~= resto@);
    r.append(texto_de(&resto).as_str());
    r
}

// ------------------------------------------------------------------- age

/// A leap year of the proleptic Gregorian calendar.
pub open spec fn bissexto(ano: int) -> bool {
    ano % 4 == 0 && (ano % 100 != 0 || ano % 400 == 0)
}

/// The days of month `mes` of year `ano`.
pub open spec fn dias_do_mes(ano: int, mes: int) -> int {
    if mes == 2 {
        if bissexto(ano) {
            29
        } else {
            28
        }
    } else if mes == 4 || mes == 6 || mes == 9 || mes == 11 {
        30
    } else {
        31
    }
}

/// The date exists in the calendar and in the years `chrono` holds
/// (`NaiveDate::from_ymd_opt` gives it).
pub open spec fn data_existe(d: Data) -> bool {
    &&& -262_143 <= d.ano <= 262_142
    &&& 1 <= d.mes <= 12
    &&& 1 <= d.dia <= dias_do_mes(d.ano as int, d.mes as int)
}

/// The number of the day `d` in a count of consecutive days: the years are
/// counted from March, so that the leap day ends a year, in cycles of 400
/// years of 146 097 days.
pub open spec fn numero_do_dia(d: Data) -> int {
    let a = if d.mes <= 2 {
        d.ano - 1
    } else {
        d.ano as int
    };
    let era = a / 400;
    let ano_da_era = a - era * 400;
    let mes_de_marco = if d.mes > 2 {
        d.mes - 3
    } else {
        d.mes + 9
    };
    let dia_do_ano = (153 * mes_de_marco + 2) / 5 + d.dia - 1;
    era * 146_097 + ano_da_era * 365 + ano_da_era / 4 - ano_da_era / 100 + dia_do_ano
}

/// Days from `data` to `referencia`; `None` when either date does not
/// exist.
pub open spec fn dias_desde(data: Data, referencia: Data) -> Option<int> {
    if data_existe(data) && data_existe(referencia) {
        Some(numero_do_dia(referencia) - numero_do_dia(data))
    } else {
        None
    }
}

/// The days from `data` to `referencia`:
/// `referencia.signed_duration_since(data).num_days()` on the two
/// `NaiveDate`s, the difference of their places in the calendar, or `None`
/// when `NaiveDate::from_ymd_opt` refuses either date.
#[verifier::external_body]
fn dias_entre(data: &Data, referencia: &Data) -> (r: Option<i64>)
    ensures
        match r {
            Some(d) => dias_desde(*data, *referencia) == Some(d as int),
            None => dias_desde(*data, *referencia) is None,
        },
{
    let de = chrono::NaiveDate::from_ymd_opt(data.ano, data.mes, data.dia)?;
    let ate = chrono::NaiveDate::from_ymd_opt(referencia.ano, referencia.mes, referencia.dia)?;
    Some(ate.signed_duration_since(de).num_days())
}

/// The age of a date, `dias` days old, as the date column shows it: `hoje`,
/// `ontem`, `há 3 d`, `há 2 m` and, from a year on, the date itself. A date
/// in the future is today.
pub open spec fn idade_spec(dias: int, iso: Option<Seq<char>>) -> Option<Seq<char>> {
    if dias <= 0 {
        Some("hoje"@)
    } else if dias == 1 {
        Some("ontem"@)
    } else if dias < 30 {
        Some("há "@ + decimal(dias as nat) + " d"@)
    } else if dias < 365 {
        Some("há "@ + decimal((dias / 30) as nat) + " m"@)
    } else {
        iso
    }
}

/// The age of `data` on the day `referencia`; `None` when a date does not
/// exist in the calendar.
pub fn idade(data: &Data, referencia: &Data) -> (r: Option<String>)
    ensures
        match dias_desde(*data, *referencia) {
            Some(d) => match idade_spec(d, data_iso(*data)) {
                Some(t) => r matches Some(s) && s@ == t,
                None => r is None,
            },
            None => r is None,
        },
{
    let dias = match dias_entre(data, referencia) {
        Some(d) => d,
        None => return None,
    };
    if dias <= 0 {
        Some("hoje".to_owned())
    } else if dias == 1 {
        Some("ontem".to_owned())
    } else if dias < 30 {
        let mut s = "há ".to_owned();
        s.append(em_decimal(dias as u64).as_str());
        s.append(" d");
        Some(s)
    } else if dias < 365 {
        let mut s = "há ".to_owned();
        s.append(em_decimal((dias / 30) as u64).as_str());
        s.append(" m");
        Some(s)
    } else {
        escrever_data(data)
    }
}

// ------------------------------------------------------- texts of the screen

/// Columns of the search shown on the status line.
/// The smallest screen that is drawn; below it only a message is.
pub const LARGURA_MINIMA: u16 = 40;
pub const ALTURA_MINIMA: u16 = 10;
/// The detail panel only from this size of screen on.
pub const LARGURA_PAINEL: u16 = 96;
pub const ALTURA_PAINEL_MINIMA: u16 = 28;

/// How a screen of the given size is laid out: too small (one message, no
/// partial drawing), or the list with the lines it gets and whether the
/// detail panel (a rule and five lines) is drawn below it. The header takes
/// three lines and the foot three.
#[derive(Debug, Clone, Copy, PartialEq, Eq, Structural)]
pub enum Disposicao {
    Pequeno,
    Lista { linhas: u16, com_painel: bool },
}

pub open spec fn disposicao_spec(largura: u16, altura: u16) -> Disposicao {
    if largura < LARGURA_MINIMA || altura < ALTURA_MINIMA {
        Disposicao::Pequeno
    } else {
        let painel = largura >= LARGURA_PAINEL && altura >= ALTURA_PAINEL_MINIMA;
        Disposicao::Lista {
            linhas: (altura - 6 - if painel {
                6int
            } else {
                0int
            }) as u16,
            com_painel: painel,
        }
    }
}

/// The layout of a screen `largura` × `altura`.
pub fn disposicao(largura: u16, altura: u16) -> (r: Disposicao)
    ensures
        r == disposicao_spec(largura, altura),
{
    if largura < LARGURA_MINIMA || altura < ALTURA_MINIMA {
        Disposicao::Pequeno
    } else {
        let painel = largura >= LARGURA_PAINEL && altura >= ALTURA_PAINEL_MINIMA;
        let linhas = if painel {
            altura - 12
        } else {
            altura - 6
        };
        Disposicao::Lista { linhas, com_painel: painel }
    }
}

/// The message of a screen too small: its size and the smallest one.
pub open spec fn texto_pequeno(largura: u16, altura: u16) -> Seq<char> {
    "Terminal demasiado pequeno ("@ + decimal(largura as nat) + "×"@ + decimal(altura as nat)
        + "); mínimo 40×10"@
}

/// `Terminal demasiado pequeno (W×H); mínimo 40×10`.
pub fn mensagem_pequeno(largura: u16, altura: u16) -> (r: String)
    ensures
        r@ == texto_pequeno(largura, altura),
{
    let mut s = "Terminal demasiado pequeno (".to_owned();
    s.append(em_decimal(largura as u64).as_str());
    s.append("×");
    s.append(em_decimal(altura as u64).as_str());
    s.append("); mínimo 40×10");
    s
}

pub const LARGURA_BUSCA: usize = 20;

/// The bars of keys at the foot of the screen: only the keys alive in the
/// current context.
pub const BARRA: &'static str = "a nova  e editar  Espaço concluir  d remover  u desfazer  / buscar  ? ajuda";
pub const BARRA_BUSCA: &'static str = "a nova  e editar  Espaço concluir  d remover  u desfazer  Esc limpar  ? ajuda";
pub const BARRA_INPUT: &'static str = "Enter guarda  Esc cancela  Ctrl+C sai";
pub const BARRA_LIXO: &'static str = "Enter restaura  c esvaziar o lixo  Esc volta  ? ajuda";
pub const BARRA_LIXO_VAZIO: &'static str = "Esc volta à lista  ? ajuda";
pub const BARRA_ARMADO: &'static str = "c confirmar  Esc cancela";
pub const BARRA_ERRO: &'static str = "Esc  limpar a mensagem    q  sair";
pub const BARRA_UNDO: &'static str = "u desfazer  ? ajuda";
pub const BARRA_VAZIO: &'static str = "a nova  ? ajuda";
pub const BARRA_SEM_RESULTADOS: &'static str = "Esc limpar  a nova  ? ajuda";
pub const BARRA_AJUDA: &'static str = "? ou Esc fecha a ajuda";

/// The right side of the header: in the trash view how full the trash is;
/// otherwise the counts, with the lines shown before the total when a
/// filter or a search hides some.
pub open spec fn texto_do_cabecalho(a: App) -> Seq<char> {
    let db = a.store.dados();
    if a.sessao@.mode == InputMode::Trash {
        "lixo: "@ + decimal(db.trash@.len()) + " de "@ + decimal(TRASH_LIMIT as nat)
    } else {
        let total = db.todos@.len();
        let vistas = vista_app(a).len();
        (if vistas == total {
            decimal(total)
        } else {
            decimal(vistas) + " de "@ + decimal(total)
        }) + " tarefas · "@ + decimal(pendentes_de(db.todos@).len()) + " pendentes · "@ + decimal(
            concluidas_de(db.todos@).len(),
        ) + " concluídas"@
    }
}

/// The right side of the header.
pub fn cabecalho(app: &App) -> (r: String)
    ensures
        r@ == texto_do_cabecalho(*app),
{
    let contas = app.store.counts();
    if app.mode() == InputMode::Trash {
        let mut s = "lixo: ".to_owned();
        s.append(em_decimal(contas.trash as u64).as_str());
        s.append(" de ");
        s.append(em_decimal(TRASH_LIMIT as u64).as_str());
        return s;
    }
    let vistas = app.visible().len();
    let total = app.store.todos().len();
    let mut s = if vistas == total {
        em_decimal(total as u64)
    } else {
        let mut v = em_decimal(vistas as u64);
        v.append(" de ");
        v.append(em_decimal(total as u64).as_str());
        v
    };
    s.append(" tarefas · ");
    s.append(em_decimal(contas.active as u64).as_str());
    s.append(" pendentes · ");
    s.append(em_decimal(contas.done as u64).as_str());
    s.append(" concluídas");
    s
}

/// The left side of the status line (line 2): what is hidden stays in
/// sight, the filter, the order, the search and how many entries the trash holds
/// (marked when it is full).
pub open spec fn estado_a_esquerda(a: App) -> Seq<char> {
    let n = a.store.dados().trash@.len();
    if a.sessao@.mode == InputMode::Trash {
        "vista: lixo · ordem: removidas primeiro"@
    } else {
        "filtro: "@ + rotulo_do_filtro(a.filter) + " · ordem: "@ + rotulo_da_ordem(a.sort) + (if a.query@.len() > 0 {
            " · busca \""@ + cortado(a.query@, LARGURA_BUSCA as nat) + "\""@
        } else {
            seq![]
        }) + (if n == 0 {
            seq![]
        } else if n >= TRASH_LIMIT {
            " · lixo: "@ + decimal(n) + " (cheio)"@
        } else {
            " · lixo: "@ + decimal(n) + " (L)"@
        })
    }
}

/// The label at the right of the status line: the header of the date column,
/// none when the trash view is empty.
pub open spec fn estado_a_direita(a: App) -> Seq<char> {
    if a.sessao@.mode == InputMode::Trash {
        if a.store.dados().trash@.len() == 0 {
            seq![]
        } else {
            "removida"@
        }
    } else {
        "criada"@
    }
}

/// The status line: its left side, whether the trash is full (drawn as a
/// warning), and its right label.
pub fn linha_de_estado(app: &App) -> (r: (String, bool, &'static str))
    ensures
        r.0@ == estado_a_esquerda(*app),
        r.1 == (app.sessao@.mode != InputMode::Trash && app.store.dados().trash@.len() >= TRASH_LIMIT),
        r.2@ == estado_a_direita(*app),
{
    let n = app.store.trash_len();
    if app.mode() == InputMode::Trash {
        let direita = if n == 0 {
            ""
        } else {
            "removida"
        };
        proof {
            reveal_strlit("");
        }
        return ("vista: lixo · ordem: removidas primeiro".to_owned(), false, direita);
    }
    let mut s = "filtro: ".to_owned();
    s.append(app.filter.label());
    s.append(" · ordem: ");
    s.append(app.sort.label());
    if !app.query.as_str().is_empty() {
        s.append(" · busca \"");
        let busca = cortar(app.query.as_str(), LARGURA_BUSCA);
        s.append(busca.as_str());
        s.append("\"");
    }
    let cheio = n >= TRASH_LIMIT;
    if n > 0 {
        s.append(" · lixo: ");
        s.append(em_decimal(n as u64).as_str());
        if cheio {
            s.append(" (cheio)");
        } else {
            s.append(" (L)");
        }
    }
    (s, cheio, "criada")
}

/// The bar of keys for the screen `a`, `armada` saying whether the guard of
/// emptying the trash is armed and in time.
pub open spec fn barra_spec(a: App, armada: bool, com_desfazer: bool) -> Seq<char> {
    let modo = a.sessao@.mode;
    if modo == InputMode::Help {
        BARRA_AJUDA@
    } else if e_texto(modo) {
        BARRA_INPUT@
    } else if modo == InputMode::Trash {
        if a.store.dados().trash@.len() == 0 {
            BARRA_LIXO_VAZIO@
        } else if armada {
            BARRA_ARMADO@
        } else {
            BARRA_LIXO@
        }
    } else if a.status is Error {
        BARRA_ERRO@
    } else if com_desfazer {
        BARRA_UNDO@
    } else if a.store.dados().todos@.len() == 0 {
        BARRA_VAZIO@
    } else if vista_app(a).len() == 0 {
        BARRA_SEM_RESULTADOS@
    } else if a.query@.len() == 0 {
        BARRA@
    } else {
        BARRA_BUSCA@
    }
}

/// The text of the status shown holds the mark of the undo.
pub open spec fn anuncia_desfazer(st: Status) -> bool {
    match st {
        Status::Idle => false,
        Status::Message { texto, .. } => ocorrencia_desde(texto@, UNDO_HINT@, 0) is Some,
        Status::Sticky(texto) => ocorrencia_desde(texto@, UNDO_HINT@, 0) is Some,
        Status::Error(texto) => ocorrencia_desde(texto@, UNDO_HINT@, 0) is Some,
    }
}

/// The bar of keys at the foot of the screen. Whether the guard is still in
/// time rests on the clock, so both bars of an armed guard are allowed.
pub fn barra_de_ajuda(app: &App) -> (r: &'static str)
    ensures
        r@ == barra_spec(*app, false, anuncia_desfazer(app.status)) || (app.armado matches Some(
            (Guarda::EsvaziarLixo, _),
        ) && r@
            == barra_spec(*app, true, anuncia_desfazer(app.status))),
{
    let modo = app.mode();
    if modo == InputMode::Help {
        return BARRA_AJUDA;
    }
    if modo.is_text() {
        return BARRA_INPUT;
    }
    if modo == InputMode::Trash {
        if app.store.trash_len() == 0 {
            return BARRA_LIXO_VAZIO;
        }
        if app.armed() {
            return BARRA_ARMADO;
        }
        return BARRA_LIXO;
    }
    if app.status.is_error() {
        return BARRA_ERRO;
    }
    let desfazer = match app.status.text() {
        Some(t) => encontrar(&caracteres(t), &caracteres(UNDO_HINT)).is_some(),
        None => false,
    };
    if desfazer {
        return BARRA_UNDO;
    }
    if app.store.todos().len() == 0 {
        return BARRA_VAZIO;
    }
    if app.visible().len() == 0 {
        return BARRA_SEM_RESULTADOS;
    }
    if app.query.as_str().is_empty() {
        BARRA
    } else {
        BARRA_BUSCA
    }
}

/// The two lines in the middle of an empty view: the empty trash, no task
/// at all, or nothing that matches the filter and the search.
pub open spec fn textos_do_vazio_spec(a: App) -> (Seq<char>, Seq<char>) {
    if a.sessao@.mode == InputMode::Trash && a.store.dados().trash@.len() == 0 {
        ("Lixo vazio."@, "O que removeres na lista fica aqui e repõe-se com Enter."@)
    } else if a.store.dados().todos@.len() == 0 {
        ("Sem tarefas."@, "a  adicionar a primeira"@)
    } else {
        (
            "Nenhuma tarefa corresponde a: filtro "@ + rotulo_do_filtro(a.filter) + " · busca \""@
                + cortado(a.query@, LARGURA_BUSCA as nat) + "\""@,
            "Esc  limpa a busca e o filtro     a  cria uma nova"@,
        )
    }
}

/// The two lines of an empty view.
pub fn textos_do_vazio(app: &App) -> (r: (String, String))
    ensures
        r.0@ == textos_do_vazio_spec(*app).0,
        r.1@ == textos_do_vazio_spec(*app).1,
{
    if app.mode() == InputMode::Trash && app.store.trash_len() == 0 {
        return (
            "Lixo vazio.".to_owned(),
            "O que removeres na lista fica aqui e repõe-se com Enter.".to_owned(),
        );
    }
    if app.store.todos().len() == 0 {
        return ("Sem tarefas.".to_owned(), "a  adicionar a primeira".to_owned());
    }
    let mut s = "Nenhuma tarefa corresponde a: filtro ".to_owned();
    s.append(app.filter.label());
    s.append(" · busca \"");
    let busca = cortar(app.query.as_str(), LARGURA_BUSCA);
    s.append(busca.as_str());
    s.append("\"");
    (s, "Esc  limpa a busca e o filtro     a  cria uma nova".to_owned())
}

/// What line 22 shows.
#[derive(Debug, Clone, PartialEq, Eq)]
pub enum Linha22 {
    /// The line of text: the name of the mode, then what was written, or
    /// the hint of the mode when nothing was (`sugestao`).
    Entrada { rotulo: &'static str, texto: String, sugestao: bool },
    /// An error, in the colour of errors.
    Erro(String),
    Texto(String),
    Nada,
}

/// Where the selected trash entry would go back: its old position, limited
/// to the length of the list, counted from one.
pub open spec fn posicao_a_repor(a: App) -> Option<nat> {
    let tr = a.store.dados().trash@;
    match a.selecionada {
        Some(i) => if (i as int) < tr.len() {
            let e = tr[tr.len() - 1 - i];
            let p = if e.index <= a.store.dados().todos@.len() {
                e.index as nat
            } else {
                a.store.dados().todos@.len()
            };
            if p < usize::MAX {
                Some(p + 1)
            } else {
                None
            }
        } else {
            None
        },
        None => None,
    }
}

/// Line 22: the line of text when one is open; otherwise an error, then an
/// action message, each shortened to the columns `util` with the home
/// directory `casa` as `~`; with nothing to say, in the trash view what
/// `Enter` would do with the selected entry, and in the list the
/// description of the selected task (when the detail panel is not there to
/// show it).
pub fn linha_22(app: &App, com_painel: bool, util: usize, casa: Option<&str>) -> (r: Linha22)
    ensures
        ({
            let a = *app;
            let c = match casa {
                Some(x) => Some(x@),
                None => None,
            };
            if e_texto(a.sessao@.mode) {
                r matches Linha22::Entrada { rotulo, texto, sugestao } && rotulo@ == rotulo_do_modo(
                    a.sessao@.mode,
                ) && sugestao == (a.sessao@.linha.len() == 0) && texto@ == (if sugestao {
                    sugestao_do_modo(a.sessao@.mode)
                } else {
                    a.sessao@.linha
                })
            } else {
                match a.status {
                    Status::Error(t) => r matches Linha22::Erro(x) && x@ == abreviado(t@, util as nat, c),
                    Status::Message { texto: t, .. } => r matches Linha22::Texto(x) && x@ == abreviado(
                        t@,
                        util as nat,
                        c,
                    ),
                    Status::Sticky(t) => r matches Linha22::Texto(x) && x@ == abreviado(t@, util as nat, c),
                    Status::Idle => if a.sessao@.mode == InputMode::Trash {
                        match (posicao_a_repor(a), selecao(a)) {
                            (Some(p), Some(t)) => r matches Linha22::Texto(x) && x@ == abreviado(
                                "Enter restaura «"@ + t.title@ + "» para a posição "@ + decimal(p)
                                    + " da lista"@,
                                util as nat,
                                c,
                            ),
                            _ => r == Linha22::Nada,
                        }
                    } else if com_painel {
                        r == Linha22::Nada
                    } else {
                        match selecao(a) {
                            Some(t) => if t.description@.len() > 0 {
                                r matches Linha22::Texto(x) && x@ == abreviado(
                                    "Descrição: "@ + t.description@,
                                    util as nat,
                                    c,
                                )
                            } else {
                                r == Linha22::Nada
                            },
                            None => r == Linha22::Nada,
                        }
                    },
                }
            }
        }),
{
    let modo = app.mode();
    if modo.is_text() {
        let texto = app.input();
        if texto.as_str().is_empty() {
            return Linha22::Entrada { rotulo: modo.label(), texto: modo.placeholder().to_owned(), sugestao: true };
        }
        return Linha22::Entrada { rotulo: modo.label(), texto, sugestao: false };
    }
    match &app.status {
        Status::Error(t) => Linha22::Erro(abreviar_com_casa(t.as_str(), util, casa)),
        Status::Message { texto, .. } => Linha22::Texto(abreviar_com_casa(texto.as_str(), util, casa)),
        Status::Sticky(t) => Linha22::Texto(abreviar_com_casa(t.as_str(), util, casa)),
        Status::Idle => {
            if modo == InputMode::Trash {
                let tr = &app.store.db().trash;
                let posicao: Option<usize> = match app.selecionada {
                    Some(i) => if i < tr.len() {
                        let e = &tr[tr.len() - 1 - i];
                        let n = app.store.todos().len();
                        let p = if e.index <= n {
                            e.index
                        } else {
                            n
                        };
                        if p < usize::MAX {
                            Some(p + 1)
                        } else {
                            None
                        }
                    } else {
                        None
                    },
                    None => None,
                };
                match (posicao, app.selected()) {
                    (Some(p), Some(t)) => {
                        let mut s = "Enter restaura «".to_owned();
                        s.append(t.title.as_str());
                        s.append("» para a posição ");
                        s.append(em_decimal(p as u64).as_str());
                        s.append(" da lista");
                        Linha22::Texto(abreviar_com_casa(s.as_str(), util, casa))
                    },
                    _ => Linha22::Nada,
                }
            } else if com_painel {
                Linha22::Nada
            } else {
                match app.selected() {
                    Some(t) => if t.description.as_str().is_empty() {
                        Linha22::Nada
                    } else {
                        let mut s = "Descrição: ".to_owned();
                        s.append(t.description.as_str());
                        Linha22::Texto(abreviar_com_casa(s.as_str(), util, casa))
                    },
                    None => Linha22::Nada,
                }
            }
        },
    }
}

/// The cells of a line of the list: the selection mark at column 0, the
/// box at 2, the priority at 6, the title from 8 cut to leave room on the
/// right, and the spaces that push the date column to the right edge.
#[derive(Debug, Clone, PartialEq, Eq)]
pub struct LinhaDeTarefa {
    pub prefixo: &'static str,
    pub caixa: &'static str,
    pub marca: char,
    pub titulo: String,
    pub espaco: usize,
}

/// Columns kept on the right of the title.
pub const RESERVA_DIREITA: usize = 21;

/// The column where the title starts.
pub const COLUNA_TITULO: usize = 8;

/// `r` is the line of `todo` in a list `largura` columns wide, with
/// `coluna` at the right edge.
pub open spec fn e_linha_de(r: LinhaDeTarefa, todo: Todo, coluna: Seq<char>, selecionado: bool, largura: usize) -> bool {
    &&& r.prefixo@ == (if selecionado {
        "▶ "@
    } else {
        "  "@
    })
    &&& r.caixa@ == (if todo.done {
        "[x] "@
    } else {
        "[ ] "@
    })
    &&& r.marca == marca_spec(todo.priority)
    &&& r.titulo@ == cortado(
        todo.title@,
        (if largura >= RESERVA_DIREITA {
            largura - RESERVA_DIREITA
        } else {
            0
        }) as nat,
    )
    &&& r.espaco as int == (if COLUNA_TITULO + largura_do_texto(r.titulo@) + largura_do_texto(coluna)
        <= largura {
        largura - (COLUNA_TITULO + largura_do_texto(r.titulo@) + largura_do_texto(coluna))
    } else {
        0
    })
}

/// The line of `todo` in a list `largura` columns wide, with `coluna` (its
/// age) at the right edge.
pub fn linha_de_tarefa(todo: &Todo, coluna: &str, selecionado: bool, largura: usize) -> (r: LinhaDeTarefa)
    ensures
        e_linha_de(r, *todo, coluna@, selecionado, largura),
{
    let util = if largura >= RESERVA_DIREITA {
        largura - RESERVA_DIREITA
    } else {
        0
    };
    let titulo = cortar(todo.title.as_str(), util);
    let usado: u128 = COLUNA_TITULO as u128 + self::largura(titulo.as_str()) as u128 + self::largura(coluna) as u128;
    let espaco = if usado <= largura as u128 {
        (largura as u128 - usado) as usize
    } else {
        0
    };
    LinhaDeTarefa {
        prefixo: if selecionado {
            "▶ "
        } else {
            "  "
        },
        caixa: if todo.done {
            "[x] "
        } else {
            "[ ] "
        },
        marca: marca_de_prioridade(todo.priority),
        titulo,
        espaco,
    }
}

// ------------------------------------------------------------ the list

/// The age of an optional date on the day `hoje`, as the date column
/// writes it; nothing when there is no date or it is not in the calendar.
pub open spec fn texto_da_idade(d: Option<Data>, hoje: Data) -> Seq<char> {
    match d {
        Some(d) => match dias_desde(d, hoje) {
            Some(n) => match idade_spec(n, data_iso(d)) {
                Some(t) => t,
                None => seq![],
            },
            None => seq![],
        },
        None => seq![],
    }
}

/// The age of an optional date, as text.
fn idade_ou_nada(d: Option<Data>, hoje: &Data) -> (r: String)
    ensures
        r@ == texto_da_idade(d, *hoje),
{
    match d {
        Some(d) => match idade(&d, hoje) {
            Some(t) => t,
            None => String::new(),
        },
        None => String::new(),
    }
}

/// The date column of a task on the day `hoje`: for a done task `✓` and
/// the age of its completion (today when it has none), otherwise the age
/// of its creation.
pub open spec fn coluna_spec(todo: Todo, hoje: Data) -> Seq<char> {
    if todo.done {
        "✓ "@ + texto_da_idade(
            match todo.completed_at {
                Some(c) => data_do_instante(c),
                None => Some(hoje),
            },
            hoje,
        )
    } else {
        texto_da_idade(data_do_instante(todo.created_at), hoje)
    }
}

/// The date column of `todo` on the day `hoje`.
pub fn coluna_de_tarefa(todo: &Todo, hoje: &Data) -> (r: String)
    ensures
        r@ == coluna_spec(*todo, *hoje),
{
    if todo.done {
        let quando = match &todo.completed_at {
            Some(c) => data_de(c),
            None => Some(*hoje),
        };
        let mut s = "✓ ".to_owned();
        s.append(idade_ou_nada(quando, hoje).as_str());
        s
    } else {
        idade_ou_nada(todo.created_date(), hoje)
    }
}

/// The line of a task in the list, `largura` columns wide, with its date
/// column (also returned) counted on today's date. Today comes from the
/// clock, so the column is stated for some day; without a date on the
/// clock it is empty.
pub fn row_line(todo: &Todo, selecionado: bool, largura: usize) -> (r: (LinhaDeTarefa, String))
    ensures
        e_linha_de(r.0, *todo, r.1@, selecionado, largura),
        r.1@.len() == 0 || exists|h: Data| r.1@ == coluna_spec(*todo, h),
{
    let coluna = match hoje() {
        Some(h) => coluna_de_tarefa(todo, &h),
        None => String::new(),
    };
    (linha_de_tarefa(todo, coluna.as_str(), selecionado, largura), coluna)
}

/// The line of a trash entry: the same grid, and the date column is the
/// age of its removal, never the mark of completion.
pub fn linha_do_lixo(entrada: &Trashed, selecionado: bool, largura: usize) -> (r: (LinhaDeTarefa, String))
    ensures
        e_linha_de(r.0, entrada.todo, r.1@, selecionado, largura),
        r.1@.len() == 0 || exists|h: Data| r.1@ == texto_da_idade(data_do_instante(entrada.deleted_at), h),
{
    let coluna = match hoje() {
        Some(h) => idade_ou_nada(data_de(&entrada.deleted_at), &h),
        None => String::new(),
    };
    (linha_de_tarefa(&entrada.todo, coluna.as_str(), selecionado, largura), coluna)
}

// ------------------------------------------------------ bars and rules

/// `n` spaces.
pub open spec fn espacos(n: int) -> Seq<char> {
    Seq::new(if n > 0 { n as nat } else { 0 }, |_i: int| ' ')
}

/// A text of `n` spaces.
fn em_espacos(n: usize) -> (r: String)
    ensures
        r@ == espacos(n as int),
{
    let mut v: Vec<char> = Vec::new();
    let mut i: usize = 0;
    while i < n
        invariant
            i <= n,
            v@ == espacos(i as int),
        decreases n - i,
    {
        v.push(' ');
        i = i + 1;
        assert(v@ =~= espacos(i as int));
    }
    texto_de(&v)
}

/// The columns left between `a` and `b` on a line `w` wide (none when they
/// do not fit).
pub open spec fn folga(a: Seq<char>, b: Seq<char>, w: int) -> int {
    if largura_do_texto(a) + largura_do_texto(b) <= w {
        w - (largura_do_texto(a) + largura_do_texto(b))
    } else {
        0
    }
}

/// The spaces that put `esquerda` at the left edge and `direita` at the
/// right edge of a line `largura` columns wide.
pub fn barra(esquerda: &str, direita: &str, largura: usize) -> (r: usize)
    ensures
        r as int == folga(esquerda@, direita@, largura as int),
{
    let usado: u128 = self::largura(esquerda) as u128 + self::largura(direita) as u128;
    if usado <= largura as u128 {
        (largura as u128 - usado) as usize
    } else {
        0
    }
}

/// A rule across the screen.
pub open spec fn regua_spec(w: nat) -> Seq<char> {
    Seq::new(w, |_i: int| '─')
}

/// A rule `largura` columns wide.
pub fn regua(largura: usize) -> (r: String)
    ensures
        r@ == regua_spec(largura as nat),
{
    let mut v: Vec<char> = Vec::new();
    let mut i: usize = 0;
    while i < largura
        invariant
            i <= largura,
            v@ == regua_spec(i as nat),
        decreases largura - i,
    {
        v.push('─');
        i = i + 1;
        assert(v@ =~= regua_spec(i as nat));
    }
    texto_de(&v)
}

/// The rule over the detail panel, labelled: `─ selecionada ─…─`.
pub open spec fn regua_da_selecionada_spec(w: int) -> Seq<char> {
    let cabeca = "─ selecionada "@;
    cabeca + regua_spec(
        if largura_do_texto(cabeca) <= w {
            (w - largura_do_texto(cabeca)) as nat
        } else {
            0
        },
    )
}

/// The labelled rule over the detail panel, `largura` columns wide.
pub fn regua_da_selecionada(largura: usize) -> (r: String)
    ensures
        r@ == regua_da_selecionada_spec(largura as int),
{
    let cabeca = "─ selecionada ";
    let w = self::largura(cabeca);
    let resto = if w <= largura {
        largura - w
    } else {
        0
    };
    let mut s = cabeca.to_owned();
    s.append(regua(resto).as_str());
    s
}

// ------------------------------------------------------ the empty view

/// `texto` centred on a line `w` columns wide: the spaces before it.
pub open spec fn centrada_spec(t: Seq<char>, w: int) -> Seq<char> {
    espacos(
        (if largura_do_texto(t) <= w {
            w - largura_do_texto(t)
        } else {
            0
        }) / 2,
    ) + t
}

/// `texto` centred on a line `largura` columns wide.
pub fn centrada(texto: &str, largura: usize) -> (r: String)
    ensures
        r@ == centrada_spec(texto@, largura as int),
{
    let w = self::largura(texto);
    let livre = if w <= largura {
        largura - w
    } else {
        0
    };
    let mut s = em_espacos(livre / 2);
    s.append(texto);
    s
}

/// The body of an empty view, `h` lines: its two texts centred one line
/// above and one line below the middle, the other lines empty.
pub open spec fn vazio_spec(a: App, w: int, h: nat, i: int) -> Seq<char> {
    let meio = (h / 2) as int;
    if meio >= 1 && i == meio - 1 {
        centrada_spec(textos_do_vazio_spec(a).0, w)
    } else if i == meio + 1 {
        centrada_spec(textos_do_vazio_spec(a).1, w)
    } else {
        seq![]
    }
}

/// The lines of the body of an empty view, `largura` by `altura`.
pub fn vazio(app: &App, largura: usize, altura: usize) -> (r: Vec<String>)
    ensures
        r@.len() == altura,
        forall|i: int| 0 <= i < altura ==> (#[trigger] r@[i])@ == vazio_spec(*app, largura as int, altura as nat, i),
{
    let (primeira, segunda) = textos_do_vazio(app);
    let meio = altura / 2;
    let mut r: Vec<String> = Vec::new();
    let mut i: usize = 0;
    while i < altura
        invariant
            i <= altura,
            meio == altura / 2,
            primeira@ == textos_do_vazio_spec(*app).0,
            segunda@ == textos_do_vazio_spec(*app).1,
            r@.len() == i,
            forall|j: int| 0 <= j < i ==> (#[trigger] r@[j])@ == vazio_spec(*app, largura as int, altura as nat, j),
        decreases altura - i,
    {
        let linha = if meio >= 1 && i == meio - 1 {
            centrada(primeira.as_str(), largura)
        } else if i == meio + 1 {
            centrada(segunda.as_str(), largura)
        } else {
            String::new()
        };
        r.push(linha);
        i = i + 1;
    }
    r
}

// ------------------------------------------------------------ the cursor

/// The column of the terminal's cursor on line 22 in a mode of text: the
/// name of the mode, two spaces, and the columns of what comes before the
/// cursor; none outside those modes, or past the columns a terminal has.
pub open spec fn coluna_do_cursor_spec(a: App) -> Option<u16> {
    let v = a.sessao@;
    if e_texto(v.mode) {
        let n = largura_do_texto(rotulo_do_modo(v.mode)) + 2 + largura_do_texto(v.linha.take(v.cursor as int));
        if n <= u16::MAX {
            Some(n as u16)
        } else {
            None
        }
    } else {
        None
    }
}

/// Where the terminal's cursor stands on line 22.
pub fn coluna_do_cursor(app: &App) -> (r: Option<u16>)
    ensures
        r == coluna_do_cursor_spec(*app),
{
    let modo = app.mode();
    if !modo.is_text() {
        return None;
    }
    let linha = caracteres(app.input().as_str());
    let cursor = app.cursor();
    let mut antes: Vec<char> = Vec::new();
    let mut i: usize = 0;
    while i < cursor && i < linha.len()
        invariant
            i <= cursor,
            cursor <= linha@.len(),
            antes@ == linha@.take(i as int),
        decreases linha@.len() - i,
    {
        antes.push(linha[i]);
        i = i + 1;
        assert(antes@ =~= linha@.take(i as int));
    }
    let n: u128 = largura(modo.label()) as u128 + 2 + largura(texto_de(&antes).as_str()) as u128;
    if n <= u16::MAX as u128 {
        Some(n as u16)
    } else {
        None
    }
}

// ------------------------------------------------------- the detail panel

/// The column where the values of the detail panel start (the keys start
/// at column 2).
pub const COLUNA_DETALHE: usize = 14;

/// A line of the detail panel: the key (drawn as a name), the spaces up to
/// the column of the values, and the value cut to the room left.
#[derive(Debug, Clone, PartialEq, Eq)]
pub struct LinhaDoPainel {
    pub chave: &'static str,
    pub espaco: usize,
    pub valor: String,
}

/// A text, or `—` when there is none.
pub open spec fn ou_traco(t: Option<Seq<char>>) -> Seq<char> {
    match t {
        Some(x) => x,
        None => "—"@,
    }
}

/// The name of the first category of `cats` with the identifier `id`.
pub open spec fn primeiro_nome(cats: Seq<Category>, id: Seq<char>) -> Option<Seq<char>>
    decreases cats.len(),
{
    if cats.len() == 0 {
        None
    } else if cats[0].id@ == id {
        Some(cats[0].name@)
    } else {
        primeiro_nome(cats.drop_first(), id)
    }
}

/// The category of `t` by name, in full; `—` when it has none or its
/// reference does not resolve.
pub open spec fn categoria_no_painel(t: Todo, cats: Seq<Category>) -> Seq<char> {
    match t.category_id {
        Some(c) => ou_traco(primeiro_nome(cats, c@)),
        None => "—"@,
    }
}

/// The keys and values of the detail panel for the task `t`: its title,
/// its description, its category, its priority with when it was created
/// and completed, and its due date with its identifier.
pub open spec fn valores_do_painel(t: Todo, cats: Seq<Category>) -> Seq<(Seq<char>, Seq<char>)> {
    seq![
        ("Título"@, t.title@),
        ("Descrição"@, t.description@),
        ("Categoria"@, categoria_no_painel(t, cats)),
        (
            "Prioridade"@,
            com_maiuscula_spec(rotulo(t.priority)) + " ("@ + seq![marca_spec(t.priority)]
                + ")    ·    criada "@ + ou_traco(data_e_hora(t.created_at)) + "    ·    concluída "@
                + ou_traco(
                match t.completed_at {
                    Some(c) => data_e_hora(c),
                    None => None,
                },
            ),
        ),
        (
            "Prazo"@,
            ou_traco(
                match t.due_at {
                    Some(d) => data_iso(d),
                    None => None,
                },
            ) + "    ·    id "@ + t.id@,
        ),
    ]
}

/// The spaces after a key of the panel, up to the column of the values.
pub open spec fn espaco_da_chave(chave: Seq<char>) -> int {
    if 2 + largura_do_texto(chave) <= COLUNA_DETALHE {
        COLUNA_DETALHE - (2 + largura_do_texto(chave))
    } else {
        0
    }
}

/// The room for the values of the panel on a screen `w` columns wide.
pub open spec fn disponivel_no_painel(w: int) -> nat {
    if w >= COLUNA_DETALHE + 2 {
        (w - (COLUNA_DETALHE + 2)) as nat
    } else {
        0
    }
}

fn linha_do_painel(chave: &'static str, valor: &str, disponivel: usize) -> (r: LinhaDoPainel)
    ensures
        r.chave == chave,
        r.espaco as int == espaco_da_chave(chave@),
        r.valor@ == cortado(valor@, disponivel as nat),
{
    let w = largura(chave);
    let espaco = if w <= COLUNA_DETALHE - 2 {
        COLUNA_DETALHE - 2 - w
    } else {
        0
    };
    LinhaDoPainel { chave, espaco, valor: cortar(valor, disponivel) }
}

/// A text, or `—`.
fn ou_traco_de(t: Option<String>) -> (r: String)
    ensures
        r@ == ou_traco(
            match t {
                Some(x) => Some(x@),
                None => None,
            },
        ),
{
    match t {
        Some(x) => x,
        None => "—".to_owned(),
    }
}

/// The name of the category `id` in `cats`, or `—`.
fn nome_ou_traco(cats: &Vec<Category>, id: &CategoryId) -> (r: String)
    ensures
        r@ == ou_traco(primeiro_nome(cats@, id@)),
{
    let mut k: usize = 0;
    assert(cats@.skip(0) =~= cats@);
    while k < cats.len()
        invariant
            k <= cats@.len(),
            primeiro_nome(cats@, id@) == primeiro_nome(cats@.skip(k as int), id@),
        decreases cats@.len() - k,
    {
        assert(cats@.skip(k as int)[0] == cats@[k as int]);
        assert(cats@.skip(k as int).drop_first() =~= cats@.skip(k + 1));
        if cats[k].id.igual(id) {
            return cats[k].name.clone();
        }
        k = k + 1;
    }
    "—".to_owned()
}

/// The five lines of the detail panel for the selected task, on a screen
/// `largura` columns wide; none when no task is selected.
pub fn painel(app: &App, largura: usize) -> (r: Vec<LinhaDoPainel>)
    ensures
        match selecao(*app) {
            None => r@.len() == 0,
            Some(t) => {
                let v = valores_do_painel(t, app.store.dados().categories@);
                &&& r@.len() == 5
                &&& forall|k: int|
                    0 <= k < 5 ==> (#[trigger] r@[k]).chave@ == v[k].0 && r@[k].espaco as int
                        == espaco_da_chave(r@[k].chave@) && r@[k].valor@ == cortado(
                        v[k].1,
                        disponivel_no_painel(largura as int),
                    )
            },
        },
{
    let t = match app.selected() {
        Some(t) => t,
        None => return Vec::new(),
    };
    let disponivel = if largura >= COLUNA_DETALHE + 2 {
        largura - (COLUNA_DETALHE + 2)
    } else {
        0
    };
    let mut prioridade = com_maiuscula(t.priority.label());
    prioridade.append(" (");
    let mut marca = String::new();
    empurrar(&mut marca, marca_de_prioridade(t.priority));
    prioridade.append(marca.as_str());
    prioridade.append(")    ·    criada ");
    prioridade.append(ou_traco_de(escrever_data_e_hora(&t.created_at)).as_str());
    prioridade.append("    ·    concluída ");
    let conclusao = match &t.completed_at {
        Some(c) => escrever_data_e_hora(c),
        None => None,
    };
    prioridade.append(ou_traco_de(conclusao).as_str());
    let prazo_iso = match &t.due_at {
        Some(d) => escrever_data(d),
        None => None,
    };
    let mut prazo = ou_traco_de(prazo_iso);
    prazo.append("    ·    id ");
    prazo.append(t.id.as_str());
    let categoria = match &t.category_id {
        Some(c) => nome_ou_traco(app.store.categories(), c),
        None => "—".to_owned(),
    };
    let mut r: Vec<LinhaDoPainel> = Vec::new();
    r.push(linha_do_painel("Título", t.title.as_str(), disponivel));
    r.push(linha_do_painel("Descrição", t.description.as_str(), disponivel));
    r.push(linha_do_painel("Categoria", categoria.as_str(), disponivel));
    r.push(linha_do_painel("Prioridade", prioridade.as_str(), disponivel));
    r.push(linha_do_painel("Prazo", prazo.as_str(), disponivel));
    proof {
        let v = valores_do_painel(*t, app.store.dados().categories@);
        assert(r@[3].valor@ == cortado(v[3].1, disponivel as nat));
    }
    r
}

} // verus!
