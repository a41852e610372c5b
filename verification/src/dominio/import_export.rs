//! Import and export: what a CSV line or a JSON record becomes, how the
//! header of a CSV is checked, and how imported tasks join the database
//! without ever duplicating an `id`.
//!
//! Reading and writing the files, and the CSV and JSON parsers, are the
//! caller's: here come already-split values.
//!
//! Three rules hold throughout. An import never panics, and every error names
//! the file and, for data, the line. A CSV without the expected header is an
//! explicit error: otherwise its first line of data would be eaten as a
//! header. And tasks are deduplicated by `id`, with a count of what was
//! ignored.

use vstd::prelude::*;

use crate::dominio::model::{prioridade_legada, prioridade_legada_ascii, Category, CategoryId, Priority, Todo, TodoId};
use crate::dominio::ops::{aparar_lixo, saidas_do_lixo, trim_trash};
use crate::dominio::store::{texto_do_erro, Db, Store, StoreError, Trashed};
use crate::dominio::tempo::{
    agora, data_iso, desvio_local, escrever_data, escrever_rfc3339, instante_valido, leitura_data,
    leitura_rfc3339, ler_data, ler_rfc3339, meia_noite_local, rfc3339, data_do_instante, Data, Instante,
};
use crate::dominio::texto::{aparado, aparar, decimal, em_decimal, iguais, minusculas, para_minusculas, so_ascii};

verus! {

/// The CSV columns, in the order of the fields of [`Todo`]; the last is the
/// category, written by name.
pub const CSV_COLUMNS: [&'static str; 9] = [
    "id",
    "title",
    "description",
    "done",
    "priority",
    "created_at",
    "completed_at",
    "due_at",
    "category",
];

/// The header of version 1.1.0: the same, without `category`. Still accepted
/// when reading.
pub const CSV_COLUMNS_V11: [&'static str; 8] = [
    "id",
    "title",
    "description",
    "done",
    "priority",
    "created_at",
    "completed_at",
    "due_at",
];

/// The 9 columns as text.
pub open spec fn colunas() -> Seq<Seq<char>> {
    seq![
        "id"@,
        "title"@,
        "description"@,
        "done"@,
        "priority"@,
        "created_at"@,
        "completed_at"@,
        "due_at"@,
        "category"@,
    ]
}

/// The 8 columns of version 1.1.0 as text.
pub open spec fn colunas_v11() -> Seq<Seq<char>> {
    colunas().drop_last()
}

/// The 9 columns as owned text.
pub fn colunas_vec() -> (r: Vec<String>)
    ensures
        vistas(r@) == colunas(),
        r@.len() == 9,
{
    let mut r: Vec<String> = Vec::new();
    let mut k: usize = 0;
    assert(CSV_COLUMNS@.map_values(|t: &str| t@) =~= colunas()) by {
        reveal_strlit("id");
        reveal_strlit("title");
        reveal_strlit("description");
        reveal_strlit("done");
        reveal_strlit("priority");
        reveal_strlit("created_at");
        reveal_strlit("completed_at");
        reveal_strlit("due_at");
        reveal_strlit("category");
    }
    while k < 9
        invariant
            0 <= k <= 9,
            CSV_COLUMNS@.map_values(|t: &str| t@) == colunas(),
            vistas(r@) == colunas().subrange(0, k as int),
        decreases 9 - k,
    {
        let c = CSV_COLUMNS[k];
        assert(CSV_COLUMNS@.map_values(|t: &str| t@)[k as int] == c@);
        let ghost antes = r@;
        let dono = c.to_owned();
        r.push(dono);
        assert(vistas(r@) =~= vistas(antes).push(colunas()[k as int]));
        k = k + 1;
        assert(vistas(r@) =~= colunas().subrange(0, k as int));
    }
    assert(colunas().subrange(0, 9) =~= colunas());
    r
}

/// The column at `k`, as a static text.
pub fn coluna_estatica(k: usize) -> (r: &'static str)
    requires
        k < 9,
    ensures
        r@ == colunas()[k as int],
{
    proof {
        reveal_strlit("id");
        reveal_strlit("title");
        reveal_strlit("description");
        reveal_strlit("done");
        reveal_strlit("priority");
        reveal_strlit("created_at");
        reveal_strlit("completed_at");
        reveal_strlit("due_at");
        reveal_strlit("category");
    }
    CSV_COLUMNS[k]
}

// ------------------------------------------------------------ the report

/// What an import did. It is shown in the status line: an import never
/// changes anything silently.
#[derive(Debug, Clone, Copy, Default, PartialEq, Eq, Structural)]
pub struct ImportReport {
    /// Records read from the file (tasks and trash entries, not categories).
    pub lidos: usize,
    /// New tasks inserted.
    pub inseridos: usize,
    /// Records ignored because their `id` already existed (in the database or
    /// earlier in the same file).
    pub duplicados: usize,
    /// Trash entries imported.
    pub lixo: usize,
    /// Old-format tasks that came without a readable date.
    pub sem_data: usize,
    /// Categories the file brought that did not exist: created.
    pub categorias_criadas: usize,
    /// Categories the file brought whose name (ignoring case) or `id` already
    /// existed: not created; the tasks point at the existing one. Counts
    /// categories, not tasks.
    pub categorias_reaproveitadas: usize,
    /// Tasks whose `category_id` resolved nowhere: they came in without a
    /// category.
    pub sem_categoria: usize,
}

/// `", N label"` when `n > 0`, nothing otherwise.
pub open spec fn parte(n: usize, rotulo: Seq<char>) -> Seq<char> {
    if n > 0 {
        ", "@ + decimal(n as nat) + rotulo
    } else {
        seq![]
    }
}

/// The summary line of a report: the three counts that are always there,
/// then each other count only when it is not zero.
pub open spec fn texto_do_resumo(r: ImportReport) -> Seq<char> {
    decimal(r.lidos as nat) + " lidos, "@ + decimal(r.inseridos as nat) + " inseridos, "@
        + decimal(r.duplicados as nat) + " duplicados ignorados"@ + parte(r.lixo, " no lixo"@)
        + parte(r.sem_data, " sem data legível"@) + parte(
        r.categorias_criadas,
        " categorias criadas"@,
    ) + parte(r.categorias_reaproveitadas, " categorias reaproveitadas"@) + parte(
        r.sem_categoria,
        " sem categoria"@,
    )
}

fn juntar_parte(s: &mut String, n: usize, rotulo: &str)
    ensures
        final(s)@ == old(s)@ + parte(n, rotulo@),
{
    if n > 0 {
        s.append(", ");
        s.append(em_decimal(n as u64).as_str());
        s.append(rotulo);
    } else {
        assert(old(s)@ + parte(n, rotulo@) =~= old(s)@);
    }
}

impl ImportReport {
    /// The summary shown to the user.
    pub fn resumo(&self) -> (r: String)
        ensures
            r@ == texto_do_resumo(*self),
    {
        let mut s = em_decimal(self.lidos as u64);
        s.append(" lidos, ");
        s.append(em_decimal(self.inseridos as u64).as_str());
        s.append(" inseridos, ");
        s.append(em_decimal(self.duplicados as u64).as_str());
        s.append(" duplicados ignorados");
        juntar_parte(&mut s, self.lixo, " no lixo");
        juntar_parte(&mut s, self.sem_data, " sem data legível");
        juntar_parte(&mut s, self.categorias_criadas, " categorias criadas");
        juntar_parte(&mut s, self.categorias_reaproveitadas, " categorias reaproveitadas");
        juntar_parte(&mut s, self.sem_categoria, " sem categoria");
        s
    }

    /// Nothing was changed: no task, no trash entry and no category came in.
    pub fn sem_alteracoes(&self) -> (r: bool)
        ensures
            r == (self.inseridos == 0 && self.lixo == 0 && self.categorias_criadas == 0),
    {
        self.inseridos == 0 && self.lixo == 0 && self.categorias_criadas == 0
    }
}

// ------------------------------------------------------------- the errors

/// Errors of an import. All name the file; those about data name the line.
#[allow(inconsistent_fields)]
#[derive(Debug, Clone, PartialEq, Eq)]
pub enum ImportError {
    Io { path: String, source: String },
    /// A CSV error, with the position the parser knew.
    Csv { path: String, linha: Option<u64>, registo: Option<u64>, source: String },
    /// Header missing or different from the expected one.
    Header { path: String, encontrado: Vec<String> },
    /// Invalid field on a given line.
    Row { path: String, linha: u64, campo: &'static str, detalhe: String },
    Json { path: String, source: String },
    /// JSON object without the `schema` field.
    NotEnveloped { path: String },
    /// Envelope with a schema this version cannot read.
    Schema { path: String, encontrado: u32, esperado: u32 },
    Persist(StoreError),
}

/// The texts of `v`.
pub open spec fn vistas(v: Seq<String>) -> Seq<Seq<char>> {
    v.map_values(|s: String| s@)
}

/// The parts joined by `sep`.
pub open spec fn juntado(partes: Seq<Seq<char>>, sep: Seq<char>) -> Seq<char>
    decreases partes.len(),
{
    if partes.len() == 0 {
        seq![]
    } else if partes.len() == 1 {
        partes[0]
    } else {
        juntado(partes.drop_last(), sep) + sep + partes.last()
    }
}

/// `slice::join(sep)`.
pub fn juntar_com(partes: &Vec<String>, sep: &str) -> (r: String)
    ensures
        r@ == juntado(vistas(partes@), sep@),
{
    let mut s = String::new();
    let mut i: usize = 0;
    while i < partes.len()
        invariant
            0 <= i <= partes@.len(),
            s@ == juntado(vistas(partes@.subrange(0, i as int)), sep@),
        decreases partes@.len() - i,
    {
        let ghost ant = vistas(partes@.subrange(0, i as int));
        let ghost pos = vistas(partes@.subrange(0, i + 1));
        assert(pos.drop_last() =~= ant);
        if i > 0 {
            s.append(sep);
        }
        s.append(partes[i].as_str());
        i = i + 1;
        assert(s@ =~= juntado(pos, sep@));
    }
    assert(partes@.subrange(0, partes@.len() as int) =~= partes@);
    s
}

fn textos(v: &[&'static str]) -> (r: Vec<String>)
    ensures
        r@.len() == v@.len(),
        forall|k: int| 0 <= k < v@.len() ==> (#[trigger] r@[k])@ == v@[k]@,
{
    let mut out: Vec<String> = Vec::new();
    let mut i: usize = 0;
    while i < v.len()
        invariant
            0 <= i <= v@.len(),
            out@.len() == i,
            forall|k: int| 0 <= k < i ==> (#[trigger] out@[k])@ == v@[k]@,
        decreases v@.len() - i,
    {
        let t: &str = v[i];
        out.push(t.to_owned());
        i = i + 1;
    }
    out
}

/// The message of a header error.
pub open spec fn texto_do_cabecalho(path: Seq<char>, encontrado: Seq<Seq<char>>) -> Seq<char> {
    "«"@ + path + "» não tem o cabeçalho esperado. Esperava as 9 colunas ("@ + juntado(
        colunas(),
        ", "@,
    ) + ") ou as 8 da v1.1.0 ("@ + juntado(colunas_v11(), ", "@) + "). Encontrei: "@ + (
    if encontrado.len() == 0 {
        "nenhuma coluna"@
    } else {
        juntado(encontrado, ", "@)
    }) + ". Um CSV sem cabeçalho é recusado de propósito: a primeira linha de dados seria consumida como cabeçalho e a primeira tarefa perdia-se em silêncio"@
}

/// The text of an import error, as shown to the user.
pub open spec fn texto_do_erro_de_import(e: ImportError) -> Seq<char> {
    match e {
        ImportError::Io { path, source } => "falha de I/O em «"@ + path@ + "»: "@ + source@,
        ImportError::Csv { path, linha, registo, source } => "«"@ + path@ + match (linha, registo) {
            (Some(l), Some(g)) => ", linha "@ + decimal(l as nat) + " (registo "@ + decimal(
                g as nat,
            ) + ")"@,
            (Some(l), None) => ", linha "@ + decimal(l as nat),
            _ => " (posição desconhecida)"@,
        } + ": "@ + source@,
        ImportError::Header { path, encontrado } => texto_do_cabecalho(
            path@,
            vistas(encontrado@),
        ),
        ImportError::Row { path, linha, campo, detalhe } => "«"@ + path@ + "», linha "@ + decimal(
            linha as nat,
        ) + ": campo `"@ + campo@ + "` inválido ("@ + detalhe@ + ")"@,
        ImportError::Json { path, source } => "JSON inválido em «"@ + path@ + "»: "@ + source@,
        ImportError::NotEnveloped { path } => "«"@ + path@
            + "» é um objeto JSON sem o campo `schema`: não é um envelope nem o array legado do rtodo"@,
        ImportError::Schema { path, encontrado, esperado } => "«"@ + path@ + "» tem schema "@
            + decimal(encontrado as nat) + ", e este binário só sabe ler "@ + decimal(
            esperado as nat,
        ) + " (ou a geração anterior, 2)"@,
        ImportError::Persist(e) => "não consegui gravar depois do import: "@ + texto_do_erro(e),
    }
}

impl ImportError {
    /// The message shown to the user.
    pub fn mensagem(&self) -> (r: String)
        ensures
            r@ == texto_do_erro_de_import(*self),
    {
        let mut s = String::new();
        match self {
            ImportError::Io { path, source } => {
                s.append("falha de I/O em «");
                s.append(path.as_str());
                s.append("»: ");
                s.append(source.as_str());
            },
            ImportError::Csv { path, linha, registo, source } => {
                s.append("«");
                s.append(path.as_str());
                match (linha, registo) {
                    (Some(l), Some(g)) => {
                        s.append(", linha ");
                        s.append(em_decimal(*l).as_str());
                        s.append(" (registo ");
                        s.append(em_decimal(*g).as_str());
                        s.append(")");
                    },
                    (Some(l), None) => {
                        s.append(", linha ");
                        s.append(em_decimal(*l).as_str());
                    },
                    _ => {
                        s.append(" (posição desconhecida)");
                    },
                }
                s.append(": ");
                s.append(source.as_str());
            },
            ImportError::Header { path, encontrado } => {
                s.append("«");
                s.append(path.as_str());
                s.append("» não tem o cabeçalho esperado. Esperava as 9 colunas (");
                let c9 = textos(&CSV_COLUMNS);
                assert(vistas(c9@) =~= colunas());
                s.append(juntar_com(&c9, ", ").as_str());
                s.append(") ou as 8 da v1.1.0 (");
                let c8 = textos(&CSV_COLUMNS_V11);
                assert(vistas(c8@) =~= colunas_v11());
                s.append(juntar_com(&c8, ", ").as_str());
                s.append("). Encontrei: ");
                if encontrado.len() == 0 {
                    s.append("nenhuma coluna");
                } else {
                    s.append(juntar_com(encontrado, ", ").as_str());
                }
                s.append(
                    ". Um CSV sem cabeçalho é recusado de propósito: a primeira linha de dados seria consumida como cabeçalho e a primeira tarefa perdia-se em silêncio",
                );
            },
            ImportError::Row { path, linha, campo, detalhe } => {
                s.append("«");
                s.append(path.as_str());
                s.append("», linha ");
                s.append(em_decimal(*linha).as_str());
                s.append(": campo `");
                s.append(campo);
                s.append("` inválido (");
                s.append(detalhe.as_str());
                s.append(")");
            },
            ImportError::Json { path, source } => {
                s.append("JSON inválido em «");
                s.append(path.as_str());
                s.append("»: ");
                s.append(source.as_str());
            },
            ImportError::NotEnveloped { path } => {
                s.append("«");
                s.append(path.as_str());
                s.append(
                    "» é um objeto JSON sem o campo `schema`: não é um envelope nem o array legado do rtodo",
                );
            },
            ImportError::Schema { path, encontrado, esperado } => {
                s.append("«");
                s.append(path.as_str());
                s.append("» tem schema ");
                s.append(em_decimal(*encontrado as u64).as_str());
                s.append(", e este binário só sabe ler ");
                s.append(em_decimal(*esperado as u64).as_str());
                s.append(" (ou a geração anterior, 2)");
            },
            ImportError::Persist(e) => {
                s.append("não consegui gravar depois do import: ");
                s.append(e.mensagem().as_str());
            },
        }
        assert(s@ =~= texto_do_erro_de_import(*self));
        s
    }
}

/// Errors of an export. Both name the file.
#[derive(Debug, Clone, PartialEq, Eq)]
pub enum ExportError {
    Io { path: String, source: String },
    Csv { path: String, source: String },
}

/// The text of an export error.
pub open spec fn texto_do_erro_de_export(e: ExportError) -> Seq<char> {
    match e {
        ExportError::Io { path, source } => "falha de I/O em «"@ + path@ + "»: "@ + source@,
        ExportError::Csv { path, source } => "erro a escrever CSV em «"@ + path@ + "»: "@ + source@,
    }
}

impl ExportError {
    /// The message shown to the user.
    pub fn mensagem(&self) -> (r: String)
        ensures
            r@ == texto_do_erro_de_export(*self),
    {
        let (inicio, path, source) = match self {
            ExportError::Io { path, source } => ("falha de I/O em «", path, source),
            ExportError::Csv { path, source } => ("erro a escrever CSV em «", path, source),
        };
        let mut s = inicio.to_owned();
        s.append(path.as_str());
        s.append("»: ");
        s.append(source.as_str());
        s
    }
}

// ------------------------------------------------------------- the header

/// How many times `x` occurs in `s`.
pub open spec fn ocorrencias(s: Seq<Seq<char>>, x: Seq<char>) -> nat
    decreases s.len(),
{
    if s.len() == 0 {
        0
    } else {
        ocorrencias(s.drop_last(), x) + if s.last() == x {
            1nat
        } else {
            0nat
        }
    }
}

/// The same columns, in any order: the same multiset of names.
pub open spec fn mesmas_colunas(esperado: Seq<Seq<char>>, encontrado: Seq<Seq<char>>) -> bool {
    &&& esperado.len() == encontrado.len()
    &&& forall|x: Seq<char>| ocorrencias(esperado, x) == ocorrencias(encontrado, x)
}

proof fn lemma_ocorre(s: Seq<Seq<char>>, x: Seq<char>)
    ensures
        ocorrencias(s, x) > 0 ==> exists|i: int| 0 <= i < s.len() && s[i] == x,
    decreases s.len(),
{
    if s.len() > 0 {
        lemma_ocorre(s.drop_last(), x);
        if ocorrencias(s.drop_last(), x) > 0 {
            let i = choose|i: int| 0 <= i < s.drop_last().len() && s.drop_last()[i] == x;
            assert(s[i] == x);
        }
    }
}

fn contar(s: &Vec<String>, x: &str) -> (r: usize)
    ensures
        r == ocorrencias(vistas(s@), x@),
{
    let mut c: usize = 0;
    let mut i: usize = 0;
    while i < s.len()
        invariant
            0 <= i <= s@.len(),
            c == ocorrencias(vistas(s@.subrange(0, i as int)), x@),
            c <= i,
        decreases s@.len() - i,
    {
        assert(vistas(s@.subrange(0, i + 1)).drop_last() =~= vistas(s@.subrange(0, i as int)));
        if iguais(s[i].as_str(), x) {
            c = c + 1;
        }
        i = i + 1;
    }
    assert(s@.subrange(0, s@.len() as int) =~= s@);
    c
}

/// `encontrado` is the same set of columns as `esperado`, in any order.
fn mesmo_conjunto(esperado: &Vec<String>, encontrado: &Vec<String>) -> (r: bool)
    ensures
        r == mesmas_colunas(vistas(esperado@), vistas(encontrado@)),
{
    let ghost e = vistas(esperado@);
    let ghost f = vistas(encontrado@);
    if esperado.len() != encontrado.len() {
        return false;
    }
    let mut i: usize = 0;
    while i < esperado.len()
        invariant
            0 <= i <= esperado@.len(),
            e == vistas(esperado@),
            f == vistas(encontrado@),
            forall|k: int| 0 <= k < i ==> ocorrencias(e, #[trigger] e[k]) == ocorrencias(f, e[k]),
        decreases esperado@.len() - i,
    {
        if contar(esperado, esperado[i].as_str()) != contar(encontrado, esperado[i].as_str()) {
            assert(ocorrencias(e, e[i as int]) != ocorrencias(f, e[i as int]));
            return false;
        }
        i = i + 1;
    }
    let mut j: usize = 0;
    while j < encontrado.len()
        invariant
            0 <= j <= encontrado@.len(),
            e == vistas(esperado@),
            f == vistas(encontrado@),
            forall|k: int| 0 <= k < e.len() ==> ocorrencias(e, #[trigger] e[k]) == ocorrencias(f, e[k]),
            forall|k: int| 0 <= k < j ==> ocorrencias(e, #[trigger] f[k]) == ocorrencias(f, f[k]),
        decreases encontrado@.len() - j,
    {
        if contar(esperado, encontrado[j].as_str()) != contar(encontrado, encontrado[j].as_str()) {
            assert(ocorrencias(e, f[j as int]) != ocorrencias(f, f[j as int]));
            return false;
        }
        j = j + 1;
    }
    assert forall|x: Seq<char>| ocorrencias(e, x) == ocorrencias(f, x) by {
        lemma_ocorre(e, x);
        lemma_ocorre(f, x);
        if ocorrencias(e, x) > 0 {
            let k = choose|k: int| 0 <= k < e.len() && e[k] == x;
            assert(ocorrencias(e, e[k]) == ocorrencias(f, e[k]));
        } else if ocorrencias(f, x) > 0 {
            let k = choose|k: int| 0 <= k < f.len() && f[k] == x;
            assert(ocorrencias(e, f[k]) == ocorrencias(f, f[k]));
        }
    }
    true
}

/// The header is one of the two accepted sets of columns (9, or the 8 of
/// version 1.1.0), in any order.
pub fn cabecalho_esperado(encontrado: &Vec<String>) -> (r: bool)
    ensures
        r == (mesmas_colunas(colunas(), vistas(encontrado@)) || mesmas_colunas(
            colunas_v11(),
            vistas(encontrado@),
        )),
{
    let c9 = textos(&CSV_COLUMNS);
    assert(vistas(c9@) =~= colunas());
    let c8 = textos(&CSV_COLUMNS_V11);
    assert(vistas(c8@) =~= colunas_v11());
    mesmo_conjunto(&c9, encontrado) || mesmo_conjunto(&c8, encontrado)
}

// ---------------------------------------------------------- the candidates

/// The comparison key of a category name: trimmed and in lower case, the
/// same rule as when a category is created. It is what keeps «Trabalho» and
/// «trabalho» from living side by side.
pub open spec fn chave(nome: Seq<char>) -> Seq<char> {
    minusculas(aparado(nome))
}

pub fn chave_do_nome(nome: &str) -> (r: String)
    ensures
        r@ == chave(nome@),
{
    let limpo = aparar(nome);
    para_minusculas(limpo.as_str())
}

/// How a file names the category of a task.
#[derive(Debug, Clone, PartialEq, Eq)]
pub enum PedidoCategoria {
    /// CSV: by name (the format that is read and written by hand).
    Nome(String),
    /// JSON: by `category_id`.
    Id(CategoryId),
}

/// A task to import and the category the file asks for it. The category
/// comes as a request: it is resolved when the tasks that come in are known.
#[derive(Debug, Clone, PartialEq, Eq)]
pub struct Candidato {
    pub todo: Todo,
    pub categoria: Option<PedidoCategoria>,
}

impl Candidato {
    /// Takes the `category_id` out of a record and turns it into a request
    /// by `id`.
    pub fn do_registo(todo: Todo) -> (r: Candidato)
        ensures
            r.todo == (Todo { category_id: None, ..todo }),
            r.categoria == match todo.category_id {
                Some(c) => Some(PedidoCategoria::Id(c)),
                None => None::<PedidoCategoria>,
            },
    {
        let mut todo = todo;
        let categoria = match todo.category_id.take() {
            Some(c) => Some(PedidoCategoria::Id(c)),
            None => None,
        };
        Candidato { todo, categoria }
    }
}

// ------------------------------------------------------------ the instant

/// Reads an instant: RFC 3339 (what export writes), taken in the machine's
/// time zone (in the offset the text wrote, for an instant the time zone
/// cannot place), or a plain `YYYY-MM-DD` date (what the old `rtodo` wrote), at
/// local midnight. The text is trimmed first.
pub fn parse_instante(texto: &str) -> (r: Option<Instante>)
    ensures
        leitura_rfc3339(aparado(texto@)) matches Some(i) ==> (r matches Some(j) && j.segundos
            == i.segundos && j.nanos == i.nanos && instante_valido(j)),
        leitura_rfc3339(aparado(texto@)) is None && leitura_data(aparado(texto@)) is Err ==> r is None,
        leitura_rfc3339(aparado(texto@)) is None ==> (leitura_data(aparado(texto@)) matches Ok(d) ==> (
        r matches Some(j) ==> data_do_instante(j) == Some(d))),
        r matches Some(j) ==> instante_valido(j),
{
    let t = aparar(texto);
    if let Some(i) = ler_rfc3339(t.as_str()) {
        let desvio = match desvio_local(i.segundos, i.nanos) {
            Some(d) => d,
            None => i.desvio,
        };
        return Some(Instante { desvio, ..i });
    }
    match ler_data(t.as_str()) {
        Ok(d) => meia_noite_local(&d),
        Err(_) => None,
    }
}

// ------------------------------------------------------------ a CSV line

/// A line of the CSV, as its columns read it. A column the header lacks (the
/// category, in the 8-column header) reads as empty.
#[derive(Debug, Clone, PartialEq, Eq)]
pub struct CsvRow {
    pub id: String,
    pub title: String,
    pub description: String,
    pub done: bool,
    pub priority: String,
    pub created_at: String,
    pub completed_at: String,
    pub due_at: String,
    pub category: String,
}

/// An import error about field `campo` of line `linha`.
pub open spec fn erro_de_campo(path: Seq<char>, linha: u64, campo: Seq<char>, e: ImportError) -> bool {
    e matches ImportError::Row { path: p, linha: l, campo: c, .. } && p@ == path && l == linha
        && c@ == campo
}

fn erro_campo(path: &str, linha: u64, campo: &'static str, detalhe: String) -> (r: ImportError)
    ensures
        erro_de_campo(path@, linha, campo@, r),
        r matches ImportError::Row { detalhe: d, .. } && d == detalhe,
{
    ImportError::Row { path: path.to_owned(), linha, campo, detalhe }
}

fn entre_aspas(antes: &str, texto: &str) -> (r: String)
    ensures
        r@ == antes@ + "«"@ + texto@ + "»"@,
{
    let mut s = antes.to_owned();
    s.append("«");
    s.append(texto);
    s.append("»");
    s
}

/// The priority of a CSV line: empty is medium, otherwise as
/// `Priority::from_legacy` reads it.
pub open spec fn prioridade_da_linha(t: Seq<char>) -> Option<Priority> {
    if aparado(t).len() == 0 {
        Some(Priority::Medium)
    } else {
        prioridade_legada(t)
    }
}

/// An instant field reads: it is empty, or RFC 3339. (A plain date may read
/// too, at local midnight, which depends on the machine's time zone.)
pub open spec fn instante_legivel(t: Seq<char>) -> bool {
    aparado(t).len() == 0 || leitura_rfc3339(aparado(t)) is Some
}

/// An instant field that reads neither as RFC 3339 nor as a plain date.
pub open spec fn instante_ilegivel(t: Seq<char>) -> bool {
    &&& aparado(t).len() > 0
    &&& leitura_rfc3339(aparado(t)) is None
    &&& leitura_data(aparado(t)) is Err
}

/// The first field of the CSV line `l`, in the order of the columns, that
/// certainly does not read: an empty `id` or `title`, an unknown priority,
/// or an instant that reads neither as RFC 3339 nor as a date. (A plain date
/// reads at local midnight, which depends on the machine's time zone, so a
/// field holding one is not counted here.)
pub open spec fn campo_com_erro(l: CsvRow) -> Option<Seq<char>> {
    if aparado(l.id@).len() == 0 {
        Some("id"@)
    } else if aparado(l.title@).len() == 0 {
        Some("title"@)
    } else if prioridade_da_linha(l.priority@) is None {
        Some("priority"@)
    } else if instante_ilegivel(l.created_at@) {
        Some("created_at"@)
    } else if !instante_legivel(l.created_at@) {
        None
    } else if instante_ilegivel(l.completed_at@) {
        Some("completed_at"@)
    } else if !instante_legivel(l.completed_at@) {
        None
    } else if aparado(l.due_at@).len() > 0 && leitura_data(aparado(l.due_at@)) is Err {
        Some("due_at"@)
    } else {
        None
    }
}

/// A CSV line whose fields all read: it gives a candidate.
pub open spec fn linha_legivel(l: CsvRow) -> bool {
    &&& aparado(l.id@).len() > 0
    &&& aparado(l.title@).len() > 0
    &&& prioridade_da_linha(l.priority@) is Some
    &&& instante_legivel(l.created_at@)
    &&& instante_legivel(l.completed_at@)
    &&& (aparado(l.due_at@).len() == 0 || leitura_data(aparado(l.due_at@)) is Ok)
}

/// `c` is the candidate of line `l`, and `sem_data` says whether it came
/// without a creation date (which then is the moment of the import).
pub open spec fn candidato_da_linha(l: CsvRow, c: Candidato, sem_data: bool) -> bool {
    &&& aparado(l.id@).len() > 0
    &&& aparado(l.title@).len() > 0
    &&& c.todo.id@ == aparado(l.id@)
    &&& c.todo.title@ == aparado(l.title@)
    &&& c.todo.description == l.description
    &&& c.todo.done == l.done
    &&& prioridade_da_linha(l.priority@) == Some(c.todo.priority)
    &&& sem_data == (aparado(l.created_at@).len() == 0)
    &&& instante_valido(c.todo.created_at)
    &&& (!sem_data ==> (leitura_rfc3339(aparado(l.created_at@)) matches Some(i)
        ==> c.todo.created_at.segundos == i.segundos && c.todo.created_at.nanos
        == i.nanos))
    &&& (!sem_data && leitura_rfc3339(aparado(l.created_at@)) is None ==> (leitura_data(
        aparado(l.created_at@),
    ) matches Ok(d) ==> data_do_instante(c.todo.created_at) == Some(d)))
    &&& (aparado(l.completed_at@).len() == 0 <==> c.todo.completed_at is None)
    &&& (aparado(l.completed_at@).len() > 0 ==> (leitura_rfc3339(
        aparado(l.completed_at@),
    ) matches Some(i) ==> (c.todo.completed_at matches Some(j) && j.segundos
        == i.segundos && j.nanos == i.nanos)))
    &&& (aparado(l.completed_at@).len() > 0 && leitura_rfc3339(aparado(l.completed_at@)) is None ==> (
    leitura_data(aparado(l.completed_at@)) matches Ok(d) ==> (c.todo.completed_at matches Some(j)
        && data_do_instante(j) == Some(d))))
    &&& (aparado(l.due_at@).len() == 0 ==> c.todo.due_at is None)
    &&& (aparado(l.due_at@).len() > 0 ==> (leitura_data(aparado(l.due_at@))
        matches Ok(d) && c.todo.due_at == Some(d)))
    &&& c.todo.category_id is None
    &&& (aparado(l.category@).len() == 0 ==> c.categoria is None)
    &&& (aparado(l.category@).len() > 0 ==> (c.categoria matches Some(
        PedidoCategoria::Nome(n),
    ) && n@ == aparado(l.category@)))
}

impl CsvRow {
    /// The candidate of the line and whether it came without a date
    /// (`created_at` empty, which gives now).
    ///
    /// The fields are checked in the order of the columns, and the first
    /// invalid one is the error: an empty `id` or `title`, an unknown
    /// priority, an unreadable date. The category name stays a request.
    pub fn into_candidato(self, path: &str, linha: u64) -> (r: Result<(Candidato, bool), ImportError>)
        ensures
            campo_com_erro(self) matches Some(c) ==> (r matches Err(e) && erro_de_campo(path@, linha, c, e)),
            aparado(self.id@).len() > 0 && aparado(self.title@).len() > 0 && prioridade_da_linha(
                self.priority@,
            ) is None ==> (r matches Err(ImportError::Row { detalhe, .. }) && detalhe@
                == "valor desconhecido: «"@ + self.priority@ + "»"@),
            aparado(self.id@).len() > 0 && aparado(self.title@).len() > 0 && aparado(self.priority@).len()
                > 0 && so_ascii(aparado(self.priority@)) ==> prioridade_da_linha(self.priority@)
                == prioridade_legada_ascii(self.priority@),
            r matches Ok((c, sem_data)) ==> candidato_da_linha(self, c, sem_data),
            linha_legivel(self) ==> r is Ok,
            r matches Err(e) ==> e matches ImportError::Row { path: p, linha: l, .. } && p@ == path@
                && l == linha,
    {
        let id = aparar(self.id.as_str());
        if id.as_str().is_empty() {
            return Err(erro_campo(path, linha, "id", "vazio".to_owned()));
        }
        let title = aparar(self.title.as_str());
        if title.as_str().is_empty() {
            return Err(erro_campo(path, linha, "title", "vazio".to_owned()));
        }
        let priority = if aparar(self.priority.as_str()).as_str().is_empty() {
            Priority::Medium
        } else {
            match Priority::from_legacy(self.priority.as_str()) {
                Some(p) => p,
                None => {
                    proof {
                        reveal_strlit("valor desconhecido: ");
                        reveal_strlit("valor desconhecido: «");
                        reveal_strlit("«");
                    }
                    let detalhe = entre_aspas("valor desconhecido: ", self.priority.as_str());
                    assert(detalhe@ == "valor desconhecido: «"@ + self.priority@ + "»"@);
                    return Err(erro_campo(path, linha, "priority", detalhe));
                },
            }
        };
        let criado = aparar(self.created_at.as_str());
        proof {
            lemma_aparado_idempotente(self.created_at@);
        }
        let (created_at, sem_data) = if criado.as_str().is_empty() {
            (agora(), true)
        } else {
            match parse_instante(criado.as_str()) {
                Some(i) => (i, false),
                None => {
                    return Err(
                        erro_campo(
                            path,
                            linha,
                            "created_at",
                            entre_aspas("data ilegível: ", criado.as_str()),
                        ),
                    );
                },
            }
        };
        assert(aparado(criado@) == aparado(self.created_at@)) by {
            lemma_aparado_idempotente(self.created_at@);
        }
        let concluido = aparar(self.completed_at.as_str());
        proof {
            lemma_aparado_idempotente(self.completed_at@);
        }
        let completed_at = if concluido.as_str().is_empty() {
            None
        } else {
            match parse_instante(concluido.as_str()) {
                Some(i) => Some(i),
                None => {
                    return Err(
                        erro_campo(
                            path,
                            linha,
                            "completed_at",
                            entre_aspas("data ilegível: ", concluido.as_str()),
                        ),
                    );
                },
            }
        };
        let prazo = aparar(self.due_at.as_str());
        let due_at = if prazo.as_str().is_empty() {
            None
        } else {
            match ler_data(prazo.as_str()) {
                Ok(d) => Some(d),
                Err(err) => {
                    let mut detalhe = entre_aspas("data ilegível: ", prazo.as_str());
                    detalhe.append(" (");
                    detalhe.append(err.as_str());
                    detalhe.append(")");
                    return Err(erro_campo(path, linha, "due_at", detalhe));
                },
            }
        };
        let nome = aparar(self.category.as_str());
        let categoria = if nome.as_str().is_empty() {
            None
        } else {
            Some(PedidoCategoria::Nome(nome))
        };
        Ok(
            (
                Candidato {
                    todo: Todo {
                        id: TodoId::from_text(id),
                        title,
                        description: self.description,
                        done: self.done,
                        priority,
                        created_at,
                        completed_at,
                        due_at,
                        category_id: None,
                    },
                    categoria,
                },
                sem_data,
            ),
        )
    }
}

/// Trimming twice is trimming once.
pub proof fn lemma_aparado_idempotente(s: Seq<char>)
    ensures
        aparado(aparado(s)) == aparado(s),
{
    lemma_inicial_idempotente(s);
    let a = crate::dominio::texto::sem_espaco_inicial(s);
    lemma_final_preserva_inicio(a);
    lemma_final_idempotente(a);
}

proof fn lemma_inicial_idempotente(s: Seq<char>)
    ensures
        crate::dominio::texto::sem_espaco_inicial(crate::dominio::texto::sem_espaco_inicial(s))
            == crate::dominio::texto::sem_espaco_inicial(s),
        crate::dominio::texto::sem_espaco_inicial(s).len() > 0 ==> !crate::dominio::texto::e_espaco(
            crate::dominio::texto::sem_espaco_inicial(s)[0],
        ),
    decreases s.len(),
{
    if s.len() > 0 && crate::dominio::texto::e_espaco(s[0]) {
        lemma_inicial_idempotente(s.drop_first());
    }
}

proof fn lemma_final_idempotente(s: Seq<char>)
    ensures
        crate::dominio::texto::sem_espaco_final(crate::dominio::texto::sem_espaco_final(s))
            == crate::dominio::texto::sem_espaco_final(s),
    decreases s.len(),
{
    if s.len() > 0 && crate::dominio::texto::e_espaco(s.last()) {
        lemma_final_idempotente(s.drop_last());
    }
}

/// Taking whitespace off the end of a text that does not start with
/// whitespace leaves a text that does not start with whitespace.
proof fn lemma_final_preserva_inicio(s: Seq<char>)
    requires
        s.len() > 0 ==> !crate::dominio::texto::e_espaco(s[0]),
    ensures
        crate::dominio::texto::sem_espaco_inicial(crate::dominio::texto::sem_espaco_final(s))
            == crate::dominio::texto::sem_espaco_final(s),
    decreases s.len(),
{
    if s.len() > 0 && crate::dominio::texto::e_espaco(s.last()) {
        assert(s.len() > 1);
        assert(s.drop_last()[0] == s[0]);
        lemma_final_preserva_inicio(s.drop_last());
    }
}

// --------------------------------------------------- a record of the rtodo

/// A record of the old `rtodo`: `time` was the priority and `date` the date,
/// as text, and there was no `id`.
#[derive(Debug, Clone, PartialEq, Eq)]
pub struct LegacyTodo {
    pub title: String,
    pub description: String,
    pub done: bool,
    pub time: Option<String>,
    pub date: String,
}

/// A record of the old format whose fields all read: it gives a task.
pub open spec fn legado_legivel(l: LegacyTodo) -> bool {
    &&& aparado(l.title@).len() > 0
    &&& match l.time {
        Some(t) => aparado(t@).len() == 0 || prioridade_legada(t@) is Some,
        None => true,
    }
    &&& instante_legivel(l.date@)
}

/// `t` is the task of the old-format record `l` (with a new random `id`),
/// and `sem_data` says whether it came without a date.
pub open spec fn tarefa_do_legado(l: LegacyTodo, t: Todo, sem_data: bool) -> bool {
    &&& t.id@.len() == 36
    &&& t.title@ == aparado(l.title@)
    &&& t.description == l.description
    &&& t.done == l.done
    &&& t.priority == match l.time {
        Some(p) => if aparado(p@).len() == 0 {
            Priority::Medium
        } else {
            prioridade_legada(p@)->0
        },
        None => Priority::Medium,
    }
    &&& sem_data == (aparado(l.date@).len() == 0)
    &&& instante_valido(t.created_at)
    &&& (!sem_data ==> (leitura_rfc3339(aparado(l.date@)) matches Some(i)
        ==> t.created_at.segundos == i.segundos && t.created_at.nanos == i.nanos))
    &&& (!sem_data && leitura_rfc3339(aparado(l.date@)) is None ==> (leitura_data(aparado(l.date@))
        matches Ok(d) ==> data_do_instante(t.created_at) == Some(d)))
    &&& t.completed_at is None
    &&& t.due_at is None
    &&& t.category_id is None
}

impl LegacyTodo {
    /// The task of the record and whether it came without a date.
    ///
    /// The record gets a new `id`. `completed_at` stays empty even when
    /// `done` is true: the real date is unknown, and inventing one would be
    /// worse than its absence.
    pub fn into_todo(self, path: &str, linha: u64) -> (r: Result<(Todo, bool), ImportError>)
        ensures
            aparado(self.title@).len() == 0 ==> (r matches Err(e) && erro_de_campo(path@, linha, "title"@, e)),
            aparado(self.title@).len() > 0 && (self.time matches Some(t) && aparado(t@).len() > 0
                && prioridade_legada(t@) is None) ==> (r matches Err(e) && erro_de_campo(
                path@,
                linha,
                "time"@,
                e,
            )),
            aparado(self.title@).len() > 0 && !(self.time matches Some(t) && aparado(t@).len() > 0
                && prioridade_legada(t@) is None) && instante_ilegivel(self.date@) ==> (r matches Err(e)
                && erro_de_campo(path@, linha, "date"@, e)),
            r matches Ok((t, sem_data)) ==> tarefa_do_legado(self, t, sem_data),
            legado_legivel(self) ==> r is Ok,
            r matches Err(e) ==> e matches ImportError::Row { path: p, linha: l, .. } && p@ == path@
                && l == linha,
    {
        let title = aparar(self.title.as_str());
        if title.as_str().is_empty() {
            return Err(erro_campo(path, linha, "title", "vazio".to_owned()));
        }
        let priority = match &self.time {
            None => Priority::Medium,
            Some(texto) => {
                let t = aparar(texto.as_str());
                if t.as_str().is_empty() {
                    Priority::Medium
                } else {
                    proof {
                        lemma_aparado_idempotente(texto@);
                    }
                    match Priority::from_legacy(t.as_str()) {
                        Some(p) => p,
                        None => {
                            return Err(
                                erro_campo(
                                    path,
                                    linha,
                                    "time",
                                    entre_aspas("prioridade desconhecida: ", t.as_str()),
                                ),
                            );
                        },
                    }
                }
            },
        };
        let data = aparar(self.date.as_str());
        proof {
            lemma_aparado_idempotente(self.date@);
        }
        let (created_at, sem_data) = if data.as_str().is_empty() {
            (agora(), true)
        } else {
            match parse_instante(data.as_str()) {
                Some(i) => (i, false),
                None => {
                    return Err(
                        erro_campo(path, linha, "date", entre_aspas("data ilegível: ", data.as_str())),
                    );
                },
            }
        };
        Ok(
            (
                Todo {
                    id: TodoId::new(),
                    title,
                    description: self.description,
                    done: self.done,
                    priority,
                    created_at,
                    completed_at: None,
                    due_at: None,
                    category_id: None,
                },
                sem_data,
            ),
        )
    }
}

/// The fields that only the new format has: a record of a JSON array with
/// any of them is read as a [`Todo`], one with none as a record of the old
/// `rtodo` (`title`, `description` and `done` are common to both).
pub open spec fn campos_do_formato_novo() -> Seq<Seq<char>> {
    seq!["id"@, "priority"@, "created_at"@, "completed_at"@, "due_at"@, "category_id"@]
}

/// A record whose keys are `chaves` is of the new format when it has any
/// field that only the new format has.
pub fn registo_do_formato_novo(chaves: &Vec<String>) -> (r: bool)
    ensures
        r == exists|i: int, j: int|
            0 <= i < chaves@.len() && 0 <= j < 6 && (#[trigger] chaves@[i])@ == (
            #[trigger] campos_do_formato_novo()[j]),
{
    let novos: [&'static str; 6] = ["id", "priority", "created_at", "completed_at", "due_at", "category_id"];
    assert(novos@.map_values(|t: &str| t@) =~= campos_do_formato_novo());
    let mut i: usize = 0;
    while i < chaves.len()
        invariant
            0 <= i <= chaves@.len(),
            novos@.map_values(|t: &str| t@) == campos_do_formato_novo(),
            forall|a: int, b: int|
                0 <= a < i && 0 <= b < 6 ==> (#[trigger] chaves@[a])@ != (
                #[trigger] campos_do_formato_novo()[b]),
        decreases chaves@.len() - i,
    {
        let mut j: usize = 0;
        while j < 6
            invariant
                0 <= j <= 6,
                0 <= i < chaves@.len(),
                novos@.map_values(|t: &str| t@) == campos_do_formato_novo(),
                forall|b: int| 0 <= b < j ==> chaves@[i as int]@ != (
                #[trigger] campos_do_formato_novo()[b]),
            decreases 6 - j,
        {
            if iguais(chaves[i].as_str(), novos[j]) {
                assert(chaves@[i as int]@ == campos_do_formato_novo()[j as int]);
                return true;
            }
            j = j + 1;
        }
        i = i + 1;
    }
    false
}

// ------------------------------------------------------------- the export

/// The name of the first category with identifier `c`, or empty.
fn nome_da_categoria(categorias: &Vec<Category>, c: &CategoryId) -> (r: String)
    ensures
        if crate::dominio::store::categoria_existe(categorias@, c@) {
            exists|k: int|
                0 <= k < categorias@.len() && (#[trigger] categorias@[k]).id@ == c@ && r@
                    == categorias@[k].name@ && forall|q: int|
                    0 <= q < k ==> (#[trigger] categorias@[q]).id@ != c@
        } else {
            r@.len() == 0
        },
{
    let mut k: usize = 0;
    while k < categorias.len()
        invariant
            0 <= k <= categorias@.len(),
            forall|q: int| 0 <= q < k ==> (#[trigger] categorias@[q]).id@ != c@,
        decreases categorias@.len() - k,
    {
        if categorias[k].id.igual(c) {
            let r = categorias[k].name.clone();
            assert(0 <= k < categorias@.len() && categorias@[k as int].id@ == c@ && r@
                == categorias@[k as int].name@);
            return r;
        }
        k = k + 1;
    }
    String::new()
}

/// The CSV line of a task: the columns of [`CSV_COLUMNS`], with the category
/// by name (empty when there is none or when it does not resolve). Instants
/// are RFC 3339, the due date `YYYY-MM-DD`; a value that cannot be written
/// leaves its column empty.
/// `r` is the CSV line of task `t`, whose category is looked up in `cats`.
pub open spec fn linha_de(t: Todo, cats: Seq<Category>, r: Seq<String>) -> bool {
    &&& r.len() == 9
    &&& r[0]@ == t.id@
    &&& r[1]@ == t.title@
    &&& r[2]@ == t.description@
    &&& r[3]@ == (if t.done {
        "true"@
    } else {
        "false"@
    })
    &&& r[4]@ == crate::dominio::model::nome_em_disco(t.priority)
    &&& r[5]@ == match rfc3339(t.created_at) {
        Some(x) => x,
        None => seq![],
    }
    &&& r[6]@ == match t.completed_at {
        Some(i) => match rfc3339(i) {
            Some(x) => x,
            None => seq![],
        },
        None => seq![],
    }
    &&& r[7]@ == match t.due_at {
        Some(d) => match data_iso(d) {
            Some(x) => x,
            None => seq![],
        },
        None => seq![],
    }
    &&& (t.category_id is None ==> r[8]@.len() == 0)
    &&& (t.category_id matches Some(c) ==> if crate::dominio::store::categoria_existe(cats, c@) {
        exists|k: int|
            0 <= k < cats.len() && (#[trigger] cats[k]).id@ == c@ && r[8]@ == cats[k].name@
                && forall|q: int| 0 <= q < k ==> (#[trigger] cats[q]).id@ != c@
    } else {
        r[8]@.len() == 0
    })
}

pub fn row(todo: &Todo, categorias: &Vec<Category>) -> (r: Vec<String>)
    ensures
        linha_de(*todo, categorias@, r@),
{
    let categoria = match &todo.category_id {
        None => String::new(),
        Some(c) => nome_da_categoria(categorias, c),
    };
    let mut r: Vec<String> = Vec::new();
    r.push(todo.id.as_str().to_owned());
    r.push(todo.title.clone());
    r.push(todo.description.clone());
    r.push(
        if todo.done {
            "true".to_owned()
        } else {
            "false".to_owned()
        },
    );
    r.push(todo.priority.as_str().to_owned());
    r.push(
        match escrever_rfc3339(&todo.created_at) {
            Some(t) => t,
            None => String::new(),
        },
    );
    r.push(
        match &todo.completed_at {
            Some(i) => match escrever_rfc3339(i) {
                Some(t) => t,
                None => String::new(),
            },
            None => String::new(),
        },
    );
    r.push(
        match &todo.due_at {
            Some(d) => match escrever_data(d) {
                Some(t) => t,
                None => String::new(),
            },
            None => String::new(),
        },
    );
    r.push(categoria);
    r
}

/// The lines of the CSV of a database: the header, then one line for each
/// task of the list, in order (the trash is not exported).
pub fn linhas_csv(db: &Db) -> (r: Vec<Vec<String>>)
    ensures
        r@.len() == db.todos@.len() + 1,
        vistas(r@[0]@) == colunas(),
        forall|i: int| 0 <= i < db.todos@.len() ==> linha_de(db.todos@[i], db.categories@, #[trigger] r@[i + 1]@),
{
    let mut cabecalho: Vec<String> = Vec::new();
    let mut k: usize = 0;
    assert(CSV_COLUMNS@.map_values(|t: &str| t@) =~= colunas()) by {
        reveal_strlit("id");
        reveal_strlit("title");
        reveal_strlit("description");
        reveal_strlit("done");
        reveal_strlit("priority");
        reveal_strlit("created_at");
        reveal_strlit("completed_at");
        reveal_strlit("due_at");
        reveal_strlit("category");
    }
    while k < 9
        invariant
            0 <= k <= 9,
            CSV_COLUMNS@.map_values(|t: &str| t@) == colunas(),
            vistas(cabecalho@) == colunas().subrange(0, k as int),
        decreases 9 - k,
    {
        let c = CSV_COLUMNS[k];
        assert(CSV_COLUMNS@.map_values(|t: &str| t@)[k as int] == c@);
        let ghost antes = cabecalho@;
        let dono = c.to_owned();
        assert(dono@ == colunas()[k as int]);
        cabecalho.push(dono);
        assert(vistas(cabecalho@) =~= vistas(antes).push(colunas()[k as int]));
        k = k + 1;
        assert(vistas(cabecalho@) =~= colunas().subrange(0, k as int));
    }
    assert(colunas().subrange(0, 9) =~= colunas());
    let mut r: Vec<Vec<String>> = Vec::new();
    r.push(cabecalho);
    let mut i: usize = 0;
    while i < db.todos.len()
        invariant
            0 <= i <= db.todos@.len(),
            r@.len() == i + 1,
            vistas(r@[0]@) == colunas(),
            forall|j: int| 0 <= j < i ==> linha_de(db.todos@[j], db.categories@, #[trigger] r@[j + 1]@),
        decreases db.todos@.len() - i,
    {
        let linha = row(&db.todos[i], &db.categories);
        r.push(linha);
        i = i + 1;
    }
    r
}

// ------------------------------------------------------------- the merge

impl PedidoCategoria {
    pub fn copia(&self) -> (r: PedidoCategoria)
        ensures
            r == *self,
    {
        match self {
            PedidoCategoria::Nome(n) => PedidoCategoria::Nome(n.clone()),
            PedidoCategoria::Id(c) => PedidoCategoria::Id(c.copia()),
        }
    }
}

impl Candidato {
    pub fn copia(&self) -> (r: Candidato)
        ensures
            r == *self,
    {
        Candidato {
            todo: self.todo.copia(),
            categoria: match &self.categoria {
                Some(p) => Some(p.copia()),
                None => None,
            },
        }
    }
}

/// The candidate at `k` comes in: its `id` is neither in `base` nor in an
/// earlier candidate of the file.
pub open spec fn entra(c: Seq<Candidato>, base: Seq<Todo>, k: int) -> bool {
    &&& !crate::dominio::ops::tem_id(base, c[k].todo.id@)
    &&& forall|j: int| 0 <= j < k ==> (#[trigger] c[j]).todo.id@ != c[k].todo.id@
}

/// The candidates that come in, in file order.
pub open spec fn novos_candidatos(c: Seq<Candidato>, base: Seq<Todo>) -> Seq<Candidato>
    decreases c.len(),
{
    if c.len() == 0 {
        c
    } else if entra(c, base, c.len() - 1) {
        novos_candidatos(c.drop_last(), base).push(c.last())
    } else {
        novos_candidatos(c.drop_last(), base)
    }
}

/// The tasks whose `id`s a file meets in the database: those of the list and
/// those of the trash.
pub open spec fn conhecidas(db: Db) -> Seq<Todo> {
    db.todos@ + crate::dominio::store::tarefas_do_lixo(db.trash@)
}

/// The tasks of the candidates, in file order.
pub open spec fn tarefas_dos_candidatos(c: Seq<Candidato>) -> Seq<Todo> {
    c.map_values(|x: Candidato| x.todo)
}

/// The trash entry at `k` comes in: its task `id` is neither in `base` (the
/// tasks already known, those of the records before the trash among them)
/// nor in an earlier entry of the file.
pub open spec fn entra_no_lixo(l: Seq<Trashed>, base: Seq<Todo>, k: int) -> bool {
    &&& !crate::dominio::ops::tem_id(base, l[k].todo.id@)
    &&& forall|j: int| 0 <= j < k ==> (#[trigger] l[j]).todo.id@ != l[k].todo.id@
}

pub open spec fn novas_entradas(l: Seq<Trashed>, base: Seq<Todo>) -> Seq<Trashed>
    decreases l.len(),
{
    if l.len() == 0 {
        l
    } else if entra_no_lixo(l, base, l.len() - 1) {
        novas_entradas(l.drop_last(), base).push(l.last())
    } else {
        novas_entradas(l.drop_last(), base)
    }
}

proof fn lemma_novos_len(c: Seq<Candidato>, base: Seq<Todo>)
    ensures
        novos_candidatos(c, base).len() <= c.len(),
    decreases c.len(),
{
    if c.len() > 0 {
        lemma_novos_len(c.drop_last(), base);
    }
}

proof fn lemma_novas_entradas_len(l: Seq<Trashed>, base: Seq<Todo>)
    ensures
        novas_entradas(l, base).len() <= l.len(),
    decreases l.len(),
{
    if l.len() > 0 {
        lemma_novas_entradas_len(l.drop_last(), base);
    }
}

/// The candidates whose `id` is new, and how many were left out.
fn separar_novos(base: &Vec<Todo>, candidatos: &Vec<Candidato>) -> (r: (Vec<Candidato>, usize))
    ensures
        r.0@ == novos_candidatos(candidatos@, base@),
        r.1 == candidatos@.len() - r.0@.len(),
{
    let mut novos: Vec<Candidato> = Vec::new();
    let mut i: usize = 0;
    while i < candidatos.len()
        invariant
            0 <= i <= candidatos@.len(),
            novos@ == novos_candidatos(candidatos@.subrange(0, i as int), base@),
            novos@.len() <= i,
        decreases candidatos@.len() - i,
    {
        let ghost pre = candidatos@.subrange(0, i as int);
        let ghost pos = candidatos@.subrange(0, i + 1);
        assert(pos.drop_last() =~= pre);
        let id = &candidatos[i].todo.id;
        let na_base = crate::dominio::ops::posicao_de(base, id).is_some();
        let mut repetido = na_base;
        let mut j: usize = 0;
        while j < i && !repetido
            invariant
                0 <= j <= i < candidatos@.len(),
                id@ == candidatos@[i as int].todo.id@,
                na_base == crate::dominio::ops::tem_id(base@, id@),
                na_base ==> repetido,
                repetido ==> (na_base || exists|q: int| 0 <= q < i && (#[trigger] candidatos@[q]).todo.id@ == id@),
                !repetido ==> forall|q: int| 0 <= q < j ==> (#[trigger] candidatos@[q]).todo.id@ != id@,
            decreases i - j,
        {
            if candidatos[j].todo.id.igual(id) {
                repetido = true;
            }
            j = j + 1;
        }
        proof {
            lemma_novos_len(pre, base@);
            if repetido {
                if !na_base {
                    let q = choose|q: int| 0 <= q < i && (#[trigger] candidatos@[q]).todo.id@ == id@;
                    assert(pos[q] == candidatos@[q]);
                }
                assert(!entra(pos, base@, i as int));
            } else {
                assert(pos[i as int] == candidatos@[i as int]);
                assert forall|q: int| 0 <= q < i implies (#[trigger] pos[q]).todo.id@ != pos[i as int].todo.id@ by {
                    assert(pos[q] == candidatos@[q]);
                }
                assert(entra(pos, base@, i as int));
            }
        }
        if !repetido {
            novos.push(candidatos[i].copia());
        }
        i = i + 1;
    }
    assert(candidatos@.subrange(0, candidatos@.len() as int) =~= candidatos@);
    let n = candidatos.len() - novos.len();
    (novos, n)
}

/// The trash entries whose task `id` is new, and how many were left out.
fn separar_lixo(base: &Vec<Todo>, lixo: &Vec<Trashed>) -> (r: (Vec<Trashed>, usize))
    ensures
        r.0@ == novas_entradas(lixo@, base@),
        r.1 == lixo@.len() - r.0@.len(),
{
    let mut novos: Vec<Trashed> = Vec::new();
    let mut i: usize = 0;
    while i < lixo.len()
        invariant
            0 <= i <= lixo@.len(),
            novos@ == novas_entradas(lixo@.subrange(0, i as int), base@),
            novos@.len() <= i,
        decreases lixo@.len() - i,
    {
        let ghost pre = lixo@.subrange(0, i as int);
        let ghost pos = lixo@.subrange(0, i + 1);
        assert(pos.drop_last() =~= pre);
        let id = &lixo[i].todo.id;
        let na_base = crate::dominio::ops::posicao_de(base, id).is_some();
        let mut repetido = na_base;
        let mut j: usize = 0;
        while j < i && !repetido
            invariant
                0 <= j <= i < lixo@.len(),
                id@ == lixo@[i as int].todo.id@,
                na_base == crate::dominio::ops::tem_id(base@, id@),
                na_base ==> repetido,
                repetido ==> (na_base || exists|q: int| 0 <= q < i && (#[trigger] lixo@[q]).todo.id@ == id@),
                !repetido ==> forall|q: int| 0 <= q < j ==> (#[trigger] lixo@[q]).todo.id@ != id@,
            decreases i - j,
        {
            if lixo[j].todo.id.igual(id) {
                repetido = true;
            }
            j = j + 1;
        }
        proof {
            lemma_novas_entradas_len(pre, base@);
            if repetido {
                if !na_base {
                    let q = choose|q: int| 0 <= q < i && (#[trigger] lixo@[q]).todo.id@ == id@;
                    assert(pos[q] == lixo@[q]);
                }
                assert(!entra_no_lixo(pos, base@, i as int));
            } else {
                assert(pos[i as int] == lixo@[i as int]);
                assert forall|q: int| 0 <= q < i implies (#[trigger] pos[q]).todo.id@ != pos[i as int].todo.id@ by {
                    assert(pos[q] == lixo@[q]);
                }
                assert(entra_no_lixo(pos, base@, i as int));
            }
        }
        if !repetido {
            novos.push(lixo[i].copia());
        }
        i = i + 1;
    }
    assert(lixo@.subrange(0, lixo@.len() as int) =~= lixo@);
    let n = lixo.len() - novos.len();
    (novos, n)
}

/// A category of the file matches a local one: the same `id`, or the same
/// name ignoring case.
pub open spec fn combina(local: Category, vinda: Category) -> bool {
    local.id@ == vinda.id@ || chave(local.name@) == chave(vinda.name@)
}

pub open spec fn e_primeira_combinacao(cats: Seq<Category>, x: Category, k: int) -> bool {
    &&& 0 <= k < cats.len()
    &&& combina(cats[k], x)
    &&& forall|q: int| 0 <= q < k ==> !combina(#[trigger] cats[q], x)
}

pub open spec fn tem_combinacao(cats: Seq<Category>, x: Category) -> bool {
    exists|k: int| 0 <= k < cats.len() && combina(#[trigger] cats[k], x)
}

pub open spec fn primeira_combinacao(cats: Seq<Category>, x: Category) -> int {
    choose|k: int| e_primeira_combinacao(cats, x, k)
}

proof fn lemma_primeira_combinacao(cats: Seq<Category>, x: Category, k: int)
    requires
        e_primeira_combinacao(cats, x, k),
    ensures
        primeira_combinacao(cats, x) == k,
{
    let j = primeira_combinacao(cats, x);
    assert(e_primeira_combinacao(cats, x, j));
    if j < k {
        assert(!combina(cats[j], x));
    }
    if k < j {
        assert(!combina(cats[k], x));
    }
}

/// The categories after integrating those of the file, the map from each
/// `id` of the file to the local `id`, and how many were created and reused.
///
/// A category of the file whose `id` or name (ignoring case) already exists
/// does not come in: the tasks point at the one that is here. The match is
/// made against the categories as they grow, so a repeated `id` inside the
/// file is reused too.
pub open spec fn integracao(
    cats: Seq<Category>,
    vindas: Seq<Category>,
) -> (Seq<Category>, Seq<(CategoryId, CategoryId)>, nat, nat)
    decreases vindas.len(),
{
    if vindas.len() == 0 {
        (cats, seq![], 0, 0)
    } else {
        let (c, m, cr, re) = integracao(cats, vindas.drop_last());
        let x = vindas.last();
        if tem_combinacao(c, x) {
            (c, m.push((x.id, c[primeira_combinacao(c, x)].id)), cr, re + 1)
        } else {
            (c.push(x), m.push((x.id, x.id)), cr + 1, re)
        }
    }
}

proof fn lemma_integracao_contagens(cats: Seq<Category>, vindas: Seq<Category>)
    ensures
        integracao(cats, vindas).2 + integracao(cats, vindas).3 == vindas.len(),
        integracao(cats, vindas).1.len() == vindas.len(),
    decreases vindas.len(),
{
    if vindas.len() > 0 {
        lemma_integracao_contagens(cats, vindas.drop_last());
    }
}

fn integrar_categorias(cats: &mut Vec<Category>, vindas: &Vec<Category>) -> (r: (
    Vec<(CategoryId, CategoryId)>,
    usize,
    usize,
))
    ensures
        ({
            let (c, m, cr, re) = integracao(old(cats)@, vindas@);
            &&& final(cats)@ == c
            &&& r.0@ == m
            &&& r.1 == cr
            &&& r.2 == re
        }),
{
    let mut remap: Vec<(CategoryId, CategoryId)> = Vec::new();
    let mut criadas: usize = 0;
    let mut reaproveitadas: usize = 0;
    let mut i: usize = 0;
    let ghost cats0 = cats@;
    while i < vindas.len()
        invariant
            0 <= i <= vindas@.len(),
            ({
                let (c, m, cr, re) = integracao(cats0, vindas@.subrange(0, i as int));
                &&& cats@ == c
                &&& remap@ == m
                &&& criadas == cr
                &&& reaproveitadas == re
            }),
            criadas + reaproveitadas == i,
        decreases vindas@.len() - i,
    {
        let ghost pre = vindas@.subrange(0, i as int);
        let ghost pos = vindas@.subrange(0, i + 1);
        assert(pos.drop_last() =~= pre);
        proof {
            lemma_integracao_contagens(cats0, pre);
        }
        let x = &vindas[i];
        let chave_x = chave_do_nome(x.name.as_str());
        let mut k: usize = 0;
        let mut achada: Option<usize> = None;
        while k < cats.len() && achada.is_none()
            invariant
                0 <= k <= cats@.len(),
                chave_x@ == chave(x.name@),
                *x == vindas@[i as int],
                achada matches Some(a) ==> a < cats@.len() && e_primeira_combinacao(cats@, *x, a as int),
                achada is None ==> forall|q: int| 0 <= q < k ==> !combina(#[trigger] cats@[q], *x),
            decreases cats@.len() - k,
        {
            let igual_id = cats[k].id.igual(&x.id);
            let c = chave_do_nome(cats[k].name.as_str());
            if igual_id || iguais(c.as_str(), chave_x.as_str()) {
                achada = Some(k);
            }
            k = k + 1;
        }
        match achada {
            Some(k) => {
                proof {
                    lemma_primeira_combinacao(cats@, *x, k as int);
                }
                remap.push((x.id.copia(), cats[k].id.copia()));
                reaproveitadas = reaproveitadas + 1;
            },
            None => {
                assert(!tem_combinacao(cats@, *x));
                remap.push((x.id.copia(), x.id.copia()));
                cats.push(x.copia());
                criadas = criadas + 1;
            },
        }
        i = i + 1;
    }
    assert(vindas@.subrange(0, vindas@.len() as int) =~= vindas@);
    (remap, criadas, reaproveitadas)
}

// ------------------------------------------------- resolving the requests

/// A category as the resolution reads it: its `id` and its name.
pub open spec fn par(c: Category) -> (CategoryId, Seq<char>) {
    (c.id, c.name@)
}

pub open spec fn pares(cats: Seq<Category>) -> Seq<(CategoryId, Seq<char>)> {
    cats.map_values(|c: Category| par(c))
}

/// The `id` of the last category whose name has key `k`: a later category
/// with the same key hides an earlier one.
pub open spec fn ultima_com_chave(cats: Seq<(CategoryId, Seq<char>)>, k: Seq<char>) -> Option<
    CategoryId,
>
    decreases cats.len(),
{
    if cats.len() == 0 {
        None
    } else if chave(cats.last().1) == k {
        Some(cats.last().0)
    } else {
        ultima_com_chave(cats.drop_last(), k)
    }
}

/// The `id` of the first category whose `id` reads `id`.
pub open spec fn com_id(cats: Seq<(CategoryId, Seq<char>)>, id: Seq<char>) -> Option<CategoryId>
    decreases cats.len(),
{
    if cats.len() == 0 {
        None
    } else {
        match com_id(cats.drop_last(), id) {
            Some(c) => Some(c),
            None => if cats.last().0@ == id {
                Some(cats.last().0)
            } else {
                None
            },
        }
    }
}

/// The local `id` of an `id` of the file: what the last pair of `remap` for
/// it says, or the `id` itself.
pub open spec fn id_local(remap: Seq<(CategoryId, CategoryId)>, id: Seq<char>) -> Seq<char>
    decreases remap.len(),
{
    if remap.len() == 0 {
        id
    } else if remap.last().0@ == id {
        remap.last().1@
    } else {
        id_local(remap.drop_last(), id)
    }
}

/// Resolving the category requests of the tasks that come in, in file order.
///
/// The result holds the categories, the tasks, the keys already counted, and
/// how many categories were created, how many existing ones were reused and
/// how many tasks came in without a category.
///
/// - By name: the task points at the last category with that key (one of the
///   base, one the file brought, or one an earlier task created). If there
///   is none, a category is created with the trimmed name and the fresh `id`
///   of the task's position, `frescos[k]`. A reused category counts once,
///   however many tasks point at it, and one created here never counts as
///   reused.
/// - By `id`: the `id` is mapped to its local one and must name a category;
///   otherwise the task comes in without a category, and is counted.
pub open spec fn resolucao(
    cats: Seq<(CategoryId, Seq<char>)>,
    remap: Seq<(CategoryId, CategoryId)>,
    novos: Seq<Candidato>,
    frescos: Seq<CategoryId>,
) -> (Seq<(CategoryId, Seq<char>)>, Seq<Todo>, Seq<Seq<char>>, nat, nat, nat)
    decreases novos.len(),
{
    if novos.len() == 0 {
        (cats, seq![], seq![], 0, 0, 0)
    } else {
        let (c, t, cont, cr, re, sc) = resolucao(cats, remap, novos.drop_last(), frescos);
        let x = novos.last();
        match x.categoria {
            None => (c, t.push(x.todo), cont, cr, re, sc),
            Some(PedidoCategoria::Nome(nome)) => {
                let k = chave(nome@);
                let ja_contada = cont.contains(k);
                let cont2 = if ja_contada {
                    cont
                } else {
                    cont.push(k)
                };
                match ultima_com_chave(c, k) {
                    Some(id) => (
                        c,
                        t.push(Todo { category_id: Some(id), ..x.todo }),
                        cont2,
                        cr,
                        if ja_contada {
                            re
                        } else {
                            re + 1
                        },
                        sc,
                    ),
                    None => {
                        let id = frescos[novos.len() - 1];
                        (
                            c.push((id, aparado(nome@))),
                            t.push(Todo { category_id: Some(id), ..x.todo }),
                            cont2,
                            cr + 1,
                            re,
                            sc,
                        )
                    },
                }
            },
            Some(PedidoCategoria::Id(id)) => match com_id(c, id_local(remap, id@)) {
                Some(l) => (c, t.push(Todo { category_id: Some(l), ..x.todo }), cont, cr, re, sc),
                None => (c, t.push(x.todo), cont, cr, re, sc + 1),
            },
        }
    }
}

fn ultima_com_chave_em(cats: &Vec<Category>, k: &str) -> (r: Option<CategoryId>)
    ensures
        r == ultima_com_chave(pares(cats@), k@),
{
    let mut achado: Option<CategoryId> = None;
    let mut i: usize = 0;
    while i < cats.len()
        invariant
            0 <= i <= cats@.len(),
            achado == ultima_com_chave(pares(cats@).subrange(0, i as int), k@),
        decreases cats@.len() - i,
    {
        assert(pares(cats@).subrange(0, i + 1).drop_last() =~= pares(cats@).subrange(0, i as int));
        let c = chave_do_nome(cats[i].name.as_str());
        if iguais(c.as_str(), k) {
            achado = Some(cats[i].id.copia());
        }
        i = i + 1;
    }
    assert(pares(cats@).subrange(0, cats@.len() as int) =~= pares(cats@));
    achado
}

fn com_id_em(cats: &Vec<Category>, id: &CategoryId) -> (r: Option<CategoryId>)
    ensures
        r == com_id(pares(cats@), id@),
{
    let mut achado: Option<CategoryId> = None;
    let mut i: usize = 0;
    while i < cats.len()
        invariant
            0 <= i <= cats@.len(),
            achado == com_id(pares(cats@).subrange(0, i as int), id@),
        decreases cats@.len() - i,
    {
        assert(pares(cats@).subrange(0, i + 1).drop_last() =~= pares(cats@).subrange(0, i as int));
        if achado.is_none() && cats[i].id.igual(id) {
            achado = Some(cats[i].id.copia());
        }
        i = i + 1;
    }
    assert(pares(cats@).subrange(0, cats@.len() as int) =~= pares(cats@));
    achado
}

fn id_local_em(remap: &Vec<(CategoryId, CategoryId)>, id: &CategoryId) -> (r: CategoryId)
    ensures
        r@ == id_local(remap@, id@),
{
    let mut local = id.copia();
    let mut i: usize = 0;
    while i < remap.len()
        invariant
            0 <= i <= remap@.len(),
            local@ == id_local(remap@.subrange(0, i as int), id@),
        decreases remap@.len() - i,
    {
        assert(remap@.subrange(0, i + 1).drop_last() =~= remap@.subrange(0, i as int));
        if remap[i].0.igual(id) {
            local = remap[i].1.copia();
        }
        i = i + 1;
    }
    assert(remap@.subrange(0, remap@.len() as int) =~= remap@);
    local
}

fn contem(v: &Vec<String>, k: &str) -> (r: bool)
    ensures
        r == vistas(v@).contains(k@),
{
    let mut j: usize = 0;
    while j < v.len()
        invariant
            0 <= j <= v@.len(),
            forall|q: int| 0 <= q < j ==> (#[trigger] vistas(v@)[q]) != k@,
        decreases v@.len() - j,
    {
        if iguais(v[j].as_str(), k) {
            assert(vistas(v@)[j as int] == k@);
            return true;
        }
        j = j + 1;
    }
    false
}

fn resolver(
    cats: &mut Vec<Category>,
    remap: &Vec<(CategoryId, CategoryId)>,
    novos: &Vec<Candidato>,
    frescos: &Vec<CategoryId>,
) -> (r: (Vec<Todo>, usize, usize, usize))
    requires
        frescos@.len() >= novos@.len(),
    ensures
        ({
            let (c, t, _cont, cr, re, sc) = resolucao(pares(old(cats)@), remap@, novos@, frescos@);
            &&& pares(final(cats)@) == c
            &&& r.0@ == t
            &&& r.1 == cr
            &&& r.2 == re
            &&& r.3 == sc
        }),
        r.1 + r.2 + r.3 <= novos@.len(),
{
    let ghost cats0 = pares(cats@);
    let mut todos: Vec<Todo> = Vec::new();
    let mut contados: Vec<String> = Vec::new();
    let mut criadas: usize = 0;
    let mut reaproveitadas: usize = 0;
    let mut sem_categoria: usize = 0;
    let mut i: usize = 0;
    while i < novos.len()
        invariant
            0 <= i <= novos@.len(),
            frescos@.len() >= novos@.len(),
            ({
                let (c, t, cont, cr, re, sc) = resolucao(cats0, remap@, novos@.subrange(0, i as int), frescos@);
                &&& pares(cats@) == c
                &&& todos@ == t
                &&& vistas(contados@) == cont
                &&& criadas == cr
                &&& reaproveitadas == re
                &&& sem_categoria == sc
            }),
            criadas + reaproveitadas + sem_categoria <= i,
        decreases novos@.len() - i,
    {
        let ghost pre = novos@.subrange(0, i as int);
        let ghost pos = novos@.subrange(0, i + 1);
        assert(pos.drop_last() =~= pre);
        assert(pos.last() == novos@[i as int]);
        let x = &novos[i];
        match &x.categoria {
            None => {
                todos.push(x.todo.copia());
            },
            Some(PedidoCategoria::Nome(nome)) => {
                let k = chave_do_nome(nome.as_str());
                let ja_contada = contem(&contados, k.as_str());
                match ultima_com_chave_em(cats, k.as_str()) {
                    Some(id) => {
                        let mut t = x.todo.copia();
                        t.category_id = Some(id);
                        todos.push(t);
                        if !ja_contada {
                            reaproveitadas = reaproveitadas + 1;
                        }
                    },
                    None => {
                        let id = frescos[i].copia();
                        let nova = Category { id: id.copia(), name: aparar(nome.as_str()) };
                        let ghost pc = pares(cats@);
                        let ghost pn = par(nova);
                        cats.push(nova);
                        assert(pares(cats@) =~= pc.push(pn));
                        let mut t = x.todo.copia();
                        t.category_id = Some(id);
                        todos.push(t);
                        criadas = criadas + 1;
                    },
                }
                if !ja_contada {
                    let ghost antes = contados@;
                    contados.push(k);
                    assert(vistas(contados@) =~= vistas(antes).push(chave(nome@)));
                }
            },
            Some(PedidoCategoria::Id(id)) => {
                let local = id_local_em(remap, id);
                match com_id_em(cats, &local) {
                    Some(l) => {
                        let mut t = x.todo.copia();
                        t.category_id = Some(l);
                        todos.push(t);
                    },
                    None => {
                        todos.push(x.todo.copia());
                        sem_categoria = sem_categoria + 1;
                    },
                }
            },
        }
        i = i + 1;
    }
    assert(novos@.subrange(0, novos@.len() as int) =~= novos@);
    (todos, criadas, reaproveitadas, sem_categoria)
}

// ------------------------------------------------------------- the merge

fn copiar_categorias(v: &Vec<Category>) -> (r: Vec<Category>)
    ensures
        r@ == v@,
{
    let mut r: Vec<Category> = Vec::new();
    let mut i: usize = 0;
    while i < v.len()
        invariant
            0 <= i <= v@.len(),
            r@ == v@.subrange(0, i as int),
        decreases v@.len() - i,
    {
        r.push(v[i].copia());
        i = i + 1;
        assert(r@ =~= v@.subrange(0, i as int));
    }
    assert(v@.subrange(0, v@.len() as int) =~= v@);
    r
}

/// `a - b`, or zero when `b` is larger.
pub open spec fn menos_ate_zero(a: nat, b: nat) -> nat {
    if a >= b {
        (a - b) as nat
    } else {
        0
    }
}

/// The category of a trash entry that came in: its `id` mapped to the local
/// one, when that names a category; none otherwise.
pub open spec fn categoria_no_lixo(
    cats: Seq<(CategoryId, Seq<char>)>,
    remap: Seq<(CategoryId, CategoryId)>,
    c: Option<CategoryId>,
) -> Option<CategoryId> {
    match c {
        Some(id) => com_id(cats, id_local(remap, id@)),
        None => None,
    }
}

/// A trash entry that came in, with its category resolved.
pub open spec fn entrada_resolvida(
    cats: Seq<(CategoryId, Seq<char>)>,
    remap: Seq<(CategoryId, CategoryId)>,
    e: Trashed,
) -> Trashed {
    Trashed { todo: Todo { category_id: categoria_no_lixo(cats, remap, e.todo.category_id), ..e.todo }, ..e }
}

/// How many trash entries of `l` name a category that does not resolve.
pub open spec fn perdidas_no_lixo(
    cats: Seq<(CategoryId, Seq<char>)>,
    remap: Seq<(CategoryId, CategoryId)>,
    l: Seq<Trashed>,
) -> nat
    decreases l.len(),
{
    if l.len() == 0 {
        0
    } else {
        perdidas_no_lixo(cats, remap, l.drop_last()) + if l.last().todo.category_id is Some
            && categoria_no_lixo(cats, remap, l.last().todo.category_id) is None {
            1nat
        } else {
            0nat
        }
    }
}

/// `a` held to at most `b`.
pub open spec fn no_maximo(a: nat, b: nat) -> nat {
    if a <= b {
        a
    } else {
        b
    }
}

/// What an import does to the database and what it reports, when the fresh
/// category `id`s it may need are `frescos`.
///
/// A record comes in when its `id` is in neither the list nor the trash of
/// the database, nor in an earlier record of the file (the tasks come
/// before the trash entries). The tasks that come in are appended, in file
/// order, after the existing ones; the same for the trash entries, after
/// which the trash limit applies. Everything else is counted as a
/// duplicate. The categories of the file are integrated first, then the
/// requests of the tasks that come in are resolved, and then the categories
/// of the trash entries, which keep a category only when it resolves. When
/// nothing comes in (no task, no trash entry, no category created) the store
/// is not touched at all. The report counts, of the trash entries that came
/// in, those that stay after the limit: they are the newest, so the limit
/// takes old ones first.
pub open spec fn efeito_da_fusao(
    antes: Store,
    depois: Store,
    candidatos: Seq<Candidato>,
    categorias: Seq<Category>,
    lixo: Seq<Trashed>,
    lidos: usize,
    sem_data: usize,
    frescos: Seq<CategoryId>,
    r: ImportReport,
) -> bool {
    let db = antes.dados();
    let novos = novos_candidatos(candidatos, conhecidas(db));
    let entradas = novas_entradas(lixo, conhecidas(db) + tarefas_dos_candidatos(candidatos));
    let (cats1, remap, cr1, re1) = integracao(db.categories@, categorias);
    let (cats2, todos2, _cont, cr2, re2, sc) = resolucao(pares(cats1), remap, novos, frescos);
    let lixo2 = entradas.map_values(|e: Trashed| entrada_resolvida(cats2, remap, e));
    let nada = novos.len() == 0 && entradas.len() == 0 && cr1 + cr2 == 0;
    let todo_o_lixo = db.trash@ + lixo2;
    let saidas = saidas_do_lixo(todo_o_lixo);
    &&& r.lidos == lidos
    &&& r.sem_data == sem_data
    &&& r.inseridos == novos.len()
    &&& r.duplicados == (candidatos.len() - novos.len()) + (lixo.len() - entradas.len())
    &&& r.lixo == no_maximo(entradas.len(), crate::dominio::ops::TRASH_LIMIT as nat)
    &&& r.categorias_criadas == cr1 + cr2
    &&& r.categorias_reaproveitadas == re1 + re2
    &&& r.sem_categoria == sc + perdidas_no_lixo(cats2, remap, entradas)
    &&& (nada ==> depois == antes)
    &&& (!nada ==> {
        &&& depois.caminho() == antes.caminho()
        &&& depois.recuperadas() == antes.recuperadas()
        &&& depois.dados().schema == db.schema
        &&& depois.dados().todos@ == db.todos@ + todos2
        &&& depois.dados().trash@ == aparar_lixo(todo_o_lixo)
        &&& pares(depois.dados().categories@) == cats2
        &&& depois.dados().trash_dropped == (if db.trash_dropped + saidas > u64::MAX {
            u64::MAX as int
        } else {
            db.trash_dropped + saidas
        })
    })
}

/// The tasks of the list and of the trash of `db`, in that order.
fn tarefas_conhecidas(db: &Db) -> (r: Vec<Todo>)
    ensures
        r@ == conhecidas(*db),
{
    let mut r: Vec<Todo> = Vec::new();
    let mut i: usize = 0;
    while i < db.todos.len()
        invariant
            0 <= i <= db.todos@.len(),
            r@ == db.todos@.subrange(0, i as int),
        decreases db.todos@.len() - i,
    {
        r.push(db.todos[i].copia());
        i = i + 1;
        assert(r@ =~= db.todos@.subrange(0, i as int));
    }
    assert(db.todos@.subrange(0, db.todos@.len() as int) =~= db.todos@);
    let ghost lixo = crate::dominio::store::tarefas_do_lixo(db.trash@);
    let mut j: usize = 0;
    while j < db.trash.len()
        invariant
            0 <= j <= db.trash@.len(),
            lixo == crate::dominio::store::tarefas_do_lixo(db.trash@),
            r@ == db.todos@ + lixo.subrange(0, j as int),
        decreases db.trash@.len() - j,
    {
        r.push(db.trash[j].todo.copia());
        j = j + 1;
        assert(r@ =~= db.todos@ + lixo.subrange(0, j as int));
    }
    assert(lixo.subrange(0, lixo.len() as int) =~= lixo);
    r
}

/// Appends the tasks of the candidates to `v`.
fn juntar_tarefas(v: &mut Vec<Todo>, candidatos: &Vec<Candidato>)
    ensures
        final(v)@ == old(v)@ + tarefas_dos_candidatos(candidatos@),
{
    let ghost v0 = v@;
    let ghost t = tarefas_dos_candidatos(candidatos@);
    let mut i: usize = 0;
    while i < candidatos.len()
        invariant
            0 <= i <= candidatos@.len(),
            t == tarefas_dos_candidatos(candidatos@),
            v@ == v0 + t.subrange(0, i as int),
        decreases candidatos@.len() - i,
    {
        v.push(candidatos[i].todo.copia());
        i = i + 1;
        assert(v@ =~= v0 + t.subrange(0, i as int));
    }
    assert(t.subrange(0, t.len() as int) =~= t);
}

/// The trash entries that came in with their categories resolved against
/// `cats`, and how many lost theirs.
fn resolver_lixo(
    cats: &Vec<Category>,
    remap: &Vec<(CategoryId, CategoryId)>,
    entradas: &Vec<Trashed>,
) -> (r: (Vec<Trashed>, usize))
    ensures
        r.0@ == entradas@.map_values(|e: Trashed| entrada_resolvida(pares(cats@), remap@, e)),
        r.1 == perdidas_no_lixo(pares(cats@), remap@, entradas@),
        r.1 <= entradas@.len(),
{
    let ghost f = |e: Trashed| entrada_resolvida(pares(cats@), remap@, e);
    let mut r: Vec<Trashed> = Vec::new();
    let mut perdidas: usize = 0;
    let mut i: usize = 0;
    while i < entradas.len()
        invariant
            0 <= i <= entradas@.len(),
            f == (|e: Trashed| entrada_resolvida(pares(cats@), remap@, e)),
            r@ == entradas@.subrange(0, i as int).map_values(f),
            perdidas == perdidas_no_lixo(pares(cats@), remap@, entradas@.subrange(0, i as int)),
            perdidas <= i,
        decreases entradas@.len() - i,
    {
        let ghost pre = entradas@.subrange(0, i as int);
        let ghost pos = entradas@.subrange(0, i + 1);
        assert(pos.drop_last() =~= pre);
        let mut e = entradas[i].copia();
        let nova = match &e.todo.category_id {
            Some(id) => {
                let local = id_local_em(remap, id);
                let achada = com_id_em(cats, &local);
                if achada.is_none() {
                    perdidas = perdidas + 1;
                }
                achada
            },
            None => None,
        };
        e.todo.category_id = nova;
        r.push(e);
        i = i + 1;
        assert(r@ =~= pos.map_values(f));
    }
    assert(entradas@.subrange(0, entradas@.len() as int) =~= entradas@);
    (r, perdidas)
}

/// The import limits that keep every count within a `usize`.
pub open spec fn cabe_na_fusao(antes: Store, candidatos: Seq<Candidato>, categorias: Seq<Category>, lixo: Seq<Trashed>) -> bool {
    &&& candidatos.len() + lixo.len() <= usize::MAX
    &&& candidatos.len() + categorias.len() <= usize::MAX
}

/// Merges what a file brought into the store, with `frescos[k]` as the `id`
/// of a category that the `k`-th task coming in creates by name.
///
/// The work is done on copies and the store is changed at the end, in one
/// step, or not at all.
pub fn fundir(
    store: &mut Store,
    candidatos: Vec<Candidato>,
    categorias: Vec<Category>,
    lixo: Vec<Trashed>,
    lidos: usize,
    sem_data: usize,
    frescos: &Vec<CategoryId>,
) -> (r: ImportReport)
    requires
        frescos@.len() >= candidatos@.len(),
        cabe_na_fusao(*old(store), candidatos@, categorias@, lixo@),
    ensures
        efeito_da_fusao(*old(store), *final(store), candidatos@, categorias@, lixo@, lidos, sem_data, frescos@, r),
{
    let ghost antes = *store;
    let ghost db0 = store.dados();
    let mut vistas = tarefas_conhecidas(store.db());
    let (novos, dup_tarefas) = separar_novos(&vistas, &candidatos);
    juntar_tarefas(&mut vistas, &candidatos);
    let (entradas, dup_lixo) = separar_lixo(&vistas, &lixo);
    let mut cats = copiar_categorias(store.categories());
    let (remap, cr1, re1) = integrar_categorias(&mut cats, &categorias);
    proof {
        lemma_novos_len(candidatos@, conhecidas(db0));
        lemma_novas_entradas_len(lixo@, conhecidas(db0) + tarefas_dos_candidatos(candidatos@));
        lemma_integracao_contagens(db0.categories@, categorias@);
    }
    let (mut todos, cr2, re2, sc) = resolver(&mut cats, &remap, &novos, frescos);
    let (mut lixo2, perdidas) = resolver_lixo(&cats, &remap, &entradas);
    let n_lixo = if entradas.len() <= crate::dominio::ops::TRASH_LIMIT {
        entradas.len()
    } else {
        crate::dominio::ops::TRASH_LIMIT
    };
    let relatorio = ImportReport {
        lidos,
        inseridos: novos.len(),
        duplicados: dup_tarefas + dup_lixo,
        lixo: n_lixo,
        sem_data,
        categorias_criadas: cr1 + cr2,
        categorias_reaproveitadas: re1 + re2,
        sem_categoria: sc + perdidas,
    };
    if novos.len() == 0 && entradas.len() == 0 && relatorio.categorias_criadas == 0 {
        return relatorio;
    }
    let ghost lixo20 = lixo2@;
    let db = store.db_mut();
    db.todos.append(&mut todos);
    db.trash.append(&mut lixo2);
    db.categories = cats;
    assert(db.trash@ == db0.trash@ + lixo20);
    let _saidas = trim_trash(db);
    relatorio
}

/// Merges what a file brought into the store.
///
/// A category that a task creates by name gets a fresh random `id`; whatever
/// those `id`s are, the merge is the one [`efeito_da_fusao`] describes for
/// them. One fresh `id` is drawn for each candidate beforehand; those of
/// candidates that create nothing are not used.
pub fn merge(
    store: &mut Store,
    candidatos: Vec<Candidato>,
    categorias: Vec<Category>,
    lixo: Vec<Trashed>,
    lidos: usize,
    sem_data: usize,
) -> (r: ImportReport)
    requires
        cabe_na_fusao(*old(store), candidatos@, categorias@, lixo@),
    ensures
        exists|frescos: Seq<CategoryId>|
            frescos.len() == candidatos@.len() && #[trigger] efeito_da_fusao(
                *old(store),
                *final(store),
                candidatos@,
                categorias@,
                lixo@,
                lidos,
                sem_data,
                frescos,
                r,
            ),
{
    let mut frescos: Vec<CategoryId> = Vec::new();
    let mut i: usize = 0;
    while i < candidatos.len()
        invariant
            0 <= i <= candidatos@.len(),
            frescos@.len() == i,
        decreases candidatos@.len() - i,
    {
        frescos.push(CategoryId::new());
        i = i + 1;
    }
    let ghost c = candidatos@;
    let ghost k = categorias@;
    let ghost l = lixo@;
    let ghost antes = *store;
    let r = fundir(store, candidatos, categorias, lixo, lidos, sem_data, &frescos);
    assert(efeito_da_fusao(antes, *store, c, k, l, lidos, sem_data, frescos@, r));
    r
}

// -------------------------------------------------------------- the laws

/// No two tasks of `s` share an `id`.
pub open spec fn ids_distintos(s: Seq<Todo>) -> bool {
    forall|i: int, j: int| 0 <= i < j < s.len() ==> (#[trigger] s[i]).id@ != (#[trigger] s[j]).id@
}

proof fn lemma_resolucao_ids(
    cats: Seq<(CategoryId, Seq<char>)>,
    remap: Seq<(CategoryId, CategoryId)>,
    novos: Seq<Candidato>,
    frescos: Seq<CategoryId>,
)
    ensures
        resolucao(cats, remap, novos, frescos).1.len() == novos.len(),
        forall|k: int|
            0 <= k < novos.len() ==> (#[trigger] resolucao(cats, remap, novos, frescos).1[k]).id
                == novos[k].todo.id,
    decreases novos.len(),
{
    if novos.len() > 0 {
        lemma_resolucao_ids(cats, remap, novos.drop_last(), frescos);
        let t = resolucao(cats, remap, novos, frescos).1;
        let t0 = resolucao(cats, remap, novos.drop_last(), frescos).1;
        assert forall|k: int| 0 <= k < novos.len() implies (#[trigger] t[k]).id == novos[k].todo.id by {
            if k < novos.len() - 1 {
                assert(t[k] == t0[k]);
                assert(novos.drop_last()[k] == novos[k]);
            }
        }
    }
}

/// Every candidate that comes in is a candidate of the file.
proof fn lemma_novos_vem_do_ficheiro(c: Seq<Candidato>, base: Seq<Todo>)
    ensures
        forall|k: int|
            0 <= k < novos_candidatos(c, base).len() ==> exists|j: int|
                0 <= j < c.len() && #[trigger] novos_candidatos(c, base)[k] == c[j] && entra(c, base, j),
    decreases c.len(),
{
    if c.len() > 0 {
        let c0 = c.drop_last();
        lemma_novos_vem_do_ficheiro(c0, base);
        lemma_novos_len(c0, base);
        let n = novos_candidatos(c, base);
        let n0 = novos_candidatos(c0, base);
        assert forall|k: int| 0 <= k < n.len() implies exists|j: int|
            0 <= j < c.len() && #[trigger] n[k] == c[j] && entra(c, base, j) by {
            if k < n0.len() {
                assert(n[k] == n0[k]);
                let j = choose|j: int| 0 <= j < c0.len() && #[trigger] n0[k] == c0[j] && entra(c0, base, j);
                assert(c0[j] == c[j]);
                assert forall|q: int| 0 <= q < j implies (#[trigger] c[q]).todo.id@ != c[j].todo.id@ by {
                    assert(c0[q] == c[q]);
                }
                assert(entra(c, base, j));
            } else {
                assert(n[k] == c.last());
                assert(entra(c, base, c.len() - 1));
            }
        }
    }
}

/// The candidates that come in have pairwise different `id`s, none of them in
/// the base.
proof fn lemma_novos_distintos(c: Seq<Candidato>, base: Seq<Todo>)
    ensures
        forall|k: int|
            0 <= k < novos_candidatos(c, base).len() ==> !crate::dominio::ops::tem_id(
                base,
                (#[trigger] novos_candidatos(c, base)[k]).todo.id@,
            ),
        forall|a: int, b: int|
            0 <= a < b < novos_candidatos(c, base).len() ==> (#[trigger] novos_candidatos(
                c,
                base,
            )[a]).todo.id@ != (#[trigger] novos_candidatos(c, base)[b]).todo.id@,
    decreases c.len(),
{
    if c.len() > 0 {
        let c0 = c.drop_last();
        lemma_novos_distintos(c0, base);
        lemma_novos_vem_do_ficheiro(c0, base);
        let n = novos_candidatos(c, base);
        let n0 = novos_candidatos(c0, base);
        if entra(c, base, c.len() - 1) {
            assert forall|k: int| 0 <= k < n.len() implies !crate::dominio::ops::tem_id(
                base,
                (#[trigger] n[k]).todo.id@,
            ) by {
                if k < n0.len() {
                    assert(n[k] == n0[k]);
                }
            }
            assert forall|a: int, b: int| 0 <= a < b < n.len() implies (#[trigger] n[a]).todo.id@
                != (#[trigger] n[b]).todo.id@ by {
                assert(n[a] == n0[a]);
                if b < n0.len() {
                    assert(n[b] == n0[b]);
                } else {
                    let j = choose|j: int| 0 <= j < c0.len() && #[trigger] n0[a] == c0[j] && entra(c0, base, j);
                    assert(c0[j] == c[j]);
                    assert(c[j].todo.id@ != c[c.len() - 1].todo.id@);
                }
            }
        } else {
            assert(n == n0);
        }
    }
}

/// Every candidate of the file is, after it, either in the base or among
/// those that came in.
proof fn lemma_todos_cobertos(c: Seq<Candidato>, base: Seq<Todo>)
    ensures
        forall|j: int|
            0 <= j < c.len() ==> crate::dominio::ops::tem_id(base, (#[trigger] c[j]).todo.id@)
                || exists|k: int|
                0 <= k < novos_candidatos(c, base).len() && (#[trigger] novos_candidatos(c, base)[k]).todo.id@
                    == c[j].todo.id@,
    decreases c.len(),
{
    if c.len() > 0 {
        let c0 = c.drop_last();
        lemma_todos_cobertos(c0, base);
        let n = novos_candidatos(c, base);
        let n0 = novos_candidatos(c0, base);
        assert forall|j: int| 0 <= j < c.len() implies crate::dominio::ops::tem_id(
            base,
            (#[trigger] c[j]).todo.id@,
        ) || exists|k: int| 0 <= k < n.len() && (#[trigger] n[k]).todo.id@ == c[j].todo.id@ by {
            if j < c.len() - 1 {
                assert(c0[j] == c[j]);
                if !crate::dominio::ops::tem_id(base, c[j].todo.id@) {
                    let k = choose|k: int| 0 <= k < n0.len() && (#[trigger] n0[k]).todo.id@ == c0[j].todo.id@;
                    assert(n[k] == n0[k]);
                }
            } else {
                if entra(c, base, j) {
                    assert(n[n.len() - 1] == c[j]);
                } else if !crate::dominio::ops::tem_id(base, c[j].todo.id@) {
                    let q = choose|q: int| 0 <= q < j && (#[trigger] c[q]).todo.id@ == c[j].todo.id@;
                    assert(c0[q] == c[q]);
                    let k = choose|k: int| 0 <= k < n0.len() && (#[trigger] n0[k]).todo.id@ == c0[q].todo.id@;
                    assert(n[k] == n0[k]);
                }
            }
        }
    }
}

/// Importing never duplicates a task: when the tasks of the database have
/// pairwise different `id`s, so do they after any import.
pub proof fn lei_importar_nao_duplica(
    antes: Store,
    depois: Store,
    candidatos: Seq<Candidato>,
    categorias: Seq<Category>,
    lixo: Seq<Trashed>,
    lidos: usize,
    sem_data: usize,
    frescos: Seq<CategoryId>,
    r: ImportReport,
)
    requires
        ids_distintos(antes.dados().todos@),
        efeito_da_fusao(antes, depois, candidatos, categorias, lixo, lidos, sem_data, frescos, r),
    ensures
        ids_distintos(depois.dados().todos@),
{
    let db = antes.dados();
    let base = conhecidas(db);
    let novos = novos_candidatos(candidatos, base);
    let (cats1, remap, cr1, re1) = integracao(db.categories@, categorias);
    let t2 = resolucao(pares(cats1), remap, novos, frescos).1;
    lemma_resolucao_ids(pares(cats1), remap, novos, frescos);
    lemma_novos_distintos(candidatos, base);
    let s = depois.dados().todos@;
    if s != db.todos@ {
        let n = db.todos@.len();
        assert(s == db.todos@ + t2);
        assert forall|i: int, j: int| 0 <= i < j < s.len() implies (#[trigger] s[i]).id@ != (#[trigger] s[j]).id@ by {
            if j < n {
                assert(s[i] == db.todos@[i] && s[j] == db.todos@[j]);
            } else if i < n {
                assert(s[j] == t2[j - n]);
                assert(t2[j - n].id == novos[j - n].todo.id);
                assert(s[i] == db.todos@[i]);
                if s[i].id@ == s[j].id@ {
                    assert(base[i] == db.todos@[i]);
                    assert(crate::dominio::ops::tem_id(base, novos[j - n].todo.id@));
                }
            } else {
                assert(s[i] == t2[i - n] && s[j] == t2[j - n]);
                assert(t2[i - n].id == novos[i - n].todo.id);
                assert(t2[j - n].id == novos[j - n].todo.id);
            }
        }
    }
}

/// After an import, every task it was given is known to the database, in
/// the list or in the trash, when the trash did not overflow.
proof fn lemma_ja_conhecidas(
    antes: Store,
    meio: Store,
    candidatos: Seq<Candidato>,
    categorias: Seq<Category>,
    lixo: Seq<Trashed>,
    lidos: usize,
    sem_data: usize,
    frescos1: Seq<CategoryId>,
    r1: ImportReport,
)
    requires
        antes.dados().trash@.len() + lixo.len() <= crate::dominio::ops::TRASH_LIMIT,
        efeito_da_fusao(antes, meio, candidatos, categorias, lixo, lidos, sem_data, frescos1, r1),
    ensures
        forall|j: int|
            0 <= j < candidatos.len() ==> crate::dominio::ops::tem_id(
                conhecidas(meio.dados()),
                (#[trigger] candidatos[j]).todo.id@,
            ),
{
    let db = antes.dados();
    let base = conhecidas(db);
    let novos = novos_candidatos(candidatos, base);
    let entradas = novas_entradas(lixo, base + tarefas_dos_candidatos(candidatos));
    let (cats1, remap, cr1, re1) = integracao(db.categories@, categorias);
    let (cats2, t2, _c, _cr, _re, _sc) = resolucao(pares(cats1), remap, novos, frescos1);
    let lixo2 = entradas.map_values(|e: Trashed| entrada_resolvida(cats2, remap, e));
    lemma_resolucao_ids(pares(cats1), remap, novos, frescos1);
    lemma_todos_cobertos(candidatos, base);
    lemma_novas_entradas_len(lixo, base + tarefas_dos_candidatos(candidatos));
    let s = meio.dados().todos@;
    let lx = meio.dados().trash@;
    let base2 = conhecidas(meio.dados());
    let n = db.todos@.len();
    let nada = novos.len() == 0 && entradas.len() == 0 && meio == antes;
    if !nada {
        assert(lx == db.trash@ + lixo2);
    }
    assert forall|j: int| 0 <= j < candidatos.len() implies crate::dominio::ops::tem_id(
        base2,
        (#[trigger] candidatos[j]).todo.id@,
    ) by {
        let id = candidatos[j].todo.id@;
        if crate::dominio::ops::tem_id(base, id) {
            let i = choose|i: int| 0 <= i < base.len() && (#[trigger] base[i]).id@ == id;
            if i < n {
                assert(base[i] == db.todos@[i]);
                assert(s[i] == db.todos@[i]);
                assert(base2[i] == s[i]);
            } else {
                let q = i - n;
                assert(base[i] == db.trash@[q].todo);
                assert(lx[q] == db.trash@[q]);
                assert(base2[s.len() + q] == lx[q].todo);
            }
        } else {
            let k = choose|k: int| 0 <= k < novos.len() && (#[trigger] novos[k]).todo.id@ == id;
            assert(s[n + k] == t2[k]);
            assert(t2[k].id == novos[k].todo.id);
            assert(base2[n + k] == s[n + k]);
        }
    }
}

/// Importing the same tasks a second time inserts none: each of them is
/// already there, in the list or in the trash. (When the first import made
/// the trash overflow, an entry it pushed out is no longer there to be met,
/// so those inputs are left out.)
pub proof fn lei_reimportar_nao_insere(
    antes: Store,
    meio: Store,
    depois: Store,
    candidatos: Seq<Candidato>,
    categorias: Seq<Category>,
    lixo: Seq<Trashed>,
    lidos: usize,
    sem_data: usize,
    frescos1: Seq<CategoryId>,
    frescos2: Seq<CategoryId>,
    r1: ImportReport,
    r2: ImportReport,
)
    requires
        antes.dados().trash@.len() + lixo.len() <= crate::dominio::ops::TRASH_LIMIT,
        efeito_da_fusao(antes, meio, candidatos, categorias, lixo, lidos, sem_data, frescos1, r1),
        efeito_da_fusao(meio, depois, candidatos, categorias, lixo, lidos, sem_data, frescos2, r2),
    ensures
        r2.inseridos == 0,
        depois.dados().todos@ == meio.dados().todos@,
        novos_candidatos(candidatos, conhecidas(meio.dados())).len() == 0,
{
    lemma_ja_conhecidas(antes, meio, candidatos, categorias, lixo, lidos, sem_data, frescos1, r1);
    let base2 = conhecidas(meio.dados());
    let s = meio.dados().todos@;
    lemma_nenhum_novo(candidatos, base2);
    let (cats1b, remapb, cr1b, re1b) = integracao(meio.dados().categories@, categorias);
    assert(resolucao(pares(cats1b), remapb, novos_candidatos(candidatos, base2), frescos2).1 =~= Seq::<Todo>::empty());
    assert(s + Seq::<Todo>::empty() =~= s);
}

/// Importing the same CSV twice never duplicates: the second time every
/// record read is counted as a duplicate, no task and no category comes in,
/// and the database is left exactly as the first import made it. (A CSV
/// brings no list of categories and no trash; as for
/// [`lei_reimportar_nao_insere`], the inputs where the first import made the
/// trash overflow are left out.)
pub proof fn lei_reimportar_csv_nao_muda_nada(
    antes: Store,
    meio: Store,
    depois: Store,
    candidatos: Seq<Candidato>,
    lidos: usize,
    sem_data: usize,
    frescos1: Seq<CategoryId>,
    frescos2: Seq<CategoryId>,
    r1: ImportReport,
    r2: ImportReport,
)
    requires
        antes.dados().trash@.len() <= crate::dominio::ops::TRASH_LIMIT,
        efeito_da_fusao(antes, meio, candidatos, Seq::empty(), Seq::empty(), lidos, sem_data, frescos1, r1),
        efeito_da_fusao(meio, depois, candidatos, Seq::empty(), Seq::empty(), lidos, sem_data, frescos2, r2),
    ensures
        r2.lidos == r1.lidos,
        r2.inseridos == 0,
        r2.duplicados == candidatos.len(),
        r2.categorias_criadas == 0,
        r2.lixo == 0,
        depois == meio,
{
    assert(antes.dados().trash@.len() + Seq::<Trashed>::empty().len() <= crate::dominio::ops::TRASH_LIMIT);
    lei_reimportar_nao_insere(
        antes,
        meio,
        depois,
        candidatos,
        Seq::empty(),
        Seq::empty(),
        lidos,
        sem_data,
        frescos1,
        frescos2,
        r1,
        r2,
    );
    let db = meio.dados();
    let novos = novos_candidatos(candidatos, conhecidas(db));
    let entradas = novas_entradas(Seq::<Trashed>::empty(), conhecidas(db) + tarefas_dos_candidatos(candidatos));
    assert(entradas.len() == 0);
    let (cats1, remap, cr1, re1) = integracao(db.categories@, Seq::<Category>::empty());
    assert(cr1 == 0);
    assert(novos =~= Seq::<Candidato>::empty());
    assert(resolucao(pares(cats1), remap, novos, frescos2).3 == 0);
}

/// No two categories share a key: no two names are equal once trimmed and
/// compared without case.
pub open spec fn chaves_unicas(cats: Seq<(CategoryId, Seq<char>)>) -> bool {
    forall|i: int, j: int|
        0 <= i < j < cats.len() ==> chave((#[trigger] cats[i]).1) != chave((#[trigger] cats[j]).1)
}

/// A second import of tasks that bring no categories and no trash, given
/// again as candidates with the same `id`s, changes nothing: each of them
/// is already there, so none comes in and no category is created.
pub proof fn lei_reimportar_os_mesmos_ids(
    antes: Store,
    meio: Store,
    depois: Store,
    c1: Seq<Candidato>,
    c2: Seq<Candidato>,
    lidos1: usize,
    sem_data1: usize,
    lidos2: usize,
    sem_data2: usize,
    frescos1: Seq<CategoryId>,
    frescos2: Seq<CategoryId>,
    r1: ImportReport,
    r2: ImportReport,
)
    requires
        antes.dados().trash@.len() <= crate::dominio::ops::TRASH_LIMIT,
        c2.len() == c1.len(),
        forall|j: int| 0 <= j < c1.len() ==> (#[trigger] c2[j]).todo.id@ == c1[j].todo.id@,
        efeito_da_fusao(antes, meio, c1, Seq::empty(), Seq::empty(), lidos1, sem_data1, frescos1, r1),
        efeito_da_fusao(meio, depois, c2, Seq::empty(), Seq::empty(), lidos2, sem_data2, frescos2, r2),
    ensures
        r2.inseridos == 0,
        r2.duplicados == c2.len(),
        r2.categorias_criadas == 0,
        r2.lixo == 0,
        depois == meio,
{
    assert(antes.dados().trash@.len() + Seq::<Trashed>::empty().len() <= crate::dominio::ops::TRASH_LIMIT);
    lemma_ja_conhecidas(antes, meio, c1, Seq::empty(), Seq::empty(), lidos1, sem_data1, frescos1, r1);
    let db = meio.dados();
    let base2 = conhecidas(db);
    assert forall|j: int| 0 <= j < c2.len() implies crate::dominio::ops::tem_id(base2, (#[trigger] c2[j]).todo.id@) by {
        assert(c2[j].todo.id@ == c1[j].todo.id@);
        assert(crate::dominio::ops::tem_id(base2, c1[j].todo.id@));
    }
    lemma_nenhum_novo(c2, base2);
    let novos = novos_candidatos(c2, base2);
    let entradas = novas_entradas(Seq::<Trashed>::empty(), base2 + tarefas_dos_candidatos(c2));
    assert(entradas.len() == 0);
    let (cats1, remap, cr1, re1) = integracao(db.categories@, Seq::<Category>::empty());
    assert(cr1 == 0);
    assert(novos =~= Seq::<Candidato>::empty());
    assert(resolucao(pares(cats1), remap, novos, frescos2).3 == 0);
}

proof fn lemma_chaves_push(c: Seq<(CategoryId, Seq<char>)>, x: (CategoryId, Seq<char>))
    requires
        chaves_unicas(c),
        forall|i: int| 0 <= i < c.len() ==> chave((#[trigger] c[i]).1) != chave(x.1),
    ensures
        chaves_unicas(c.push(x)),
{
    let t = c.push(x);
    assert forall|i: int, j: int| 0 <= i < j < t.len() implies chave((#[trigger] t[i]).1) != chave(
        (#[trigger] t[j]).1,
    ) by {
        assert(t[i] == c[i]);
        if j < c.len() {
            assert(t[j] == c[j]);
        }
    }
}

proof fn lemma_sem_chave(c: Seq<(CategoryId, Seq<char>)>, k: Seq<char>)
    requires
        ultima_com_chave(c, k) is None,
    ensures
        forall|i: int| 0 <= i < c.len() ==> chave((#[trigger] c[i]).1) != k,
    decreases c.len(),
{
    if c.len() > 0 {
        let d = c.drop_last();
        lemma_sem_chave(d, k);
        assert forall|i: int| 0 <= i < c.len() implies chave((#[trigger] c[i]).1) != k by {
            if i < d.len() {
                assert(c[i] == d[i]);
            }
        }
    }
}

proof fn lemma_integracao_chaves(cats: Seq<Category>, vindas: Seq<Category>)
    requires
        chaves_unicas(pares(cats)),
    ensures
        chaves_unicas(pares(integracao(cats, vindas).0)),
    decreases vindas.len(),
{
    if vindas.len() > 0 {
        lemma_integracao_chaves(cats, vindas.drop_last());
        let c = integracao(cats, vindas.drop_last()).0;
        let x = vindas.last();
        if !tem_combinacao(c, x) {
            assert(pares(c.push(x)) =~= pares(c).push(par(x)));
            assert forall|i: int| 0 <= i < pares(c).len() implies chave((#[trigger] pares(c)[i]).1)
                != chave(par(x).1) by {
                assert(!combina(c[i], x));
            }
            lemma_chaves_push(pares(c), par(x));
        }
    }
}

proof fn lemma_resolucao_chaves(
    cats: Seq<(CategoryId, Seq<char>)>,
    remap: Seq<(CategoryId, CategoryId)>,
    novos: Seq<Candidato>,
    frescos: Seq<CategoryId>,
)
    requires
        chaves_unicas(cats),
    ensures
        chaves_unicas(resolucao(cats, remap, novos, frescos).0),
    decreases novos.len(),
{
    if novos.len() > 0 {
        lemma_resolucao_chaves(cats, remap, novos.drop_last(), frescos);
        let c = resolucao(cats, remap, novos.drop_last(), frescos).0;
        let x = novos.last();
        match x.categoria {
            Some(PedidoCategoria::Nome(nome)) => {
                let k = chave(nome@);
                if ultima_com_chave(c, k) is None {
                    lemma_sem_chave(c, k);
                    lemma_aparado_idempotente(nome@);
                    lemma_chaves_push(c, (frescos[novos.len() - 1], aparado(nome@)));
                }
            },
            _ => {},
        }
    }
}

/// Importing never lets two categories with the same name (trimmed, ignoring
/// case) live side by side: when the names of the database are unique in
/// that sense, they are after any import.
pub proof fn lei_importar_mantem_chaves(
    antes: Store,
    depois: Store,
    candidatos: Seq<Candidato>,
    categorias: Seq<Category>,
    lixo: Seq<Trashed>,
    lidos: usize,
    sem_data: usize,
    frescos: Seq<CategoryId>,
    r: ImportReport,
)
    requires
        chaves_unicas(pares(antes.dados().categories@)),
        efeito_da_fusao(antes, depois, candidatos, categorias, lixo, lidos, sem_data, frescos, r),
    ensures
        chaves_unicas(pares(depois.dados().categories@)),
{
    let db = antes.dados();
    let novos = novos_candidatos(candidatos, conhecidas(db));
    let (cats1, remap, cr1, re1) = integracao(db.categories@, categorias);
    lemma_integracao_chaves(db.categories@, categorias);
    lemma_resolucao_chaves(pares(cats1), remap, novos, frescos);
}

/// Some category of `c` has the identifier `id`.
pub open spec fn tem_categoria(c: Seq<(CategoryId, Seq<char>)>, id: CategoryId) -> bool {
    exists|i: int| 0 <= i < c.len() && (#[trigger] c[i]).0 == id
}

/// `c` begins with `a`.
pub open spec fn comeca_por<T>(c: Seq<T>, a: Seq<T>) -> bool {
    a.len() <= c.len() && forall|i: int| 0 <= i < a.len() ==> #[trigger] c[i] == a[i]
}

proof fn lemma_integracao_prefixo(cats: Seq<Category>, vindas: Seq<Category>)
    ensures
        comeca_por(integracao(cats, vindas).0, cats),
    decreases vindas.len(),
{
    if vindas.len() > 0 {
        lemma_integracao_prefixo(cats, vindas.drop_last());
        let c = integracao(cats, vindas.drop_last()).0;
        let x = vindas.last();
        if !tem_combinacao(c, x) {
            assert forall|i: int| 0 <= i < cats.len() implies #[trigger] c.push(x)[i] == cats[i] by {
                assert(c[i] == cats[i]);
            }
        }
    }
}

proof fn lemma_ultima_com_chave_em(c: Seq<(CategoryId, Seq<char>)>, k: Seq<char>)
    ensures
        ultima_com_chave(c, k) matches Some(id) ==> tem_categoria(c, id),
    decreases c.len(),
{
    if c.len() > 0 {
        let d = c.drop_last();
        lemma_ultima_com_chave_em(d, k);
        if chave(c.last().1) == k {
            assert(c[c.len() - 1].0 == c.last().0);
        } else if let Some(id) = ultima_com_chave(d, k) {
            let i = choose|i: int| 0 <= i < d.len() && (#[trigger] d[i]).0 == id;
            assert(c[i] == d[i]);
        }
    }
}

proof fn lemma_com_id_em(c: Seq<(CategoryId, Seq<char>)>, id: Seq<char>)
    ensures
        com_id(c, id) matches Some(l) ==> tem_categoria(c, l),
    decreases c.len(),
{
    if c.len() > 0 {
        let d = c.drop_last();
        lemma_com_id_em(d, id);
        if let Some(l) = com_id(d, id) {
            let i = choose|i: int| 0 <= i < d.len() && (#[trigger] d[i]).0 == l;
            assert(c[i] == d[i]);
        } else if c.last().0@ == id {
            assert(c[c.len() - 1].0 == c.last().0);
        }
    }
}

proof fn lemma_prefixo_tem_categoria(a: Seq<(CategoryId, Seq<char>)>, c: Seq<(CategoryId, Seq<char>)>, id: CategoryId)
    requires
        comeca_por(c, a),
        tem_categoria(a, id),
    ensures
        tem_categoria(c, id),
{
    let i = choose|i: int| 0 <= i < a.len() && (#[trigger] a[i]).0 == id;
    assert(c[i] == a[i]);
}

/// The resolution only appends categories, and every task it gives points
/// at one of them or at none, when the tasks of the candidates point at
/// none.
proof fn lemma_resolucao_referencias(
    cats: Seq<(CategoryId, Seq<char>)>,
    remap: Seq<(CategoryId, CategoryId)>,
    novos: Seq<Candidato>,
    frescos: Seq<CategoryId>,
)
    requires
        forall|k: int| 0 <= k < novos.len() ==> (#[trigger] novos[k]).todo.category_id is None,
    ensures
        comeca_por(resolucao(cats, remap, novos, frescos).0, cats),
        forall|j: int|
            0 <= j < resolucao(cats, remap, novos, frescos).1.len() ==> ((
            #[trigger] resolucao(cats, remap, novos, frescos).1[j]).category_id matches Some(id)
                ==> tem_categoria(resolucao(cats, remap, novos, frescos).0, id)),
    decreases novos.len(),
{
    if novos.len() > 0 {
        let n0 = novos.drop_last();
        assert forall|k: int| 0 <= k < n0.len() implies (#[trigger] n0[k]).todo.category_id is None by {
            assert(n0[k] == novos[k]);
        }
        lemma_resolucao_referencias(cats, remap, n0, frescos);
        let (c, t, cont, cr, re, sc) = resolucao(cats, remap, n0, frescos);
        let (c2, t2, _cont2, _cr2, _re2, _sc2) = resolucao(cats, remap, novos, frescos);
        let x = novos.last();
        assert(x == novos[novos.len() - 1]);
        assert(comeca_por(c2, c));
        assert forall|i: int| 0 <= i < cats.len() implies #[trigger] c2[i] == cats[i] by {
            assert(c[i] == cats[i]);
        }
        assert forall|j: int| 0 <= j < t2.len() implies ((#[trigger] t2[j]).category_id matches Some(id)
            ==> tem_categoria(c2, id)) by {
            if j < t.len() {
                assert(t2[j] == t[j]);
                if let Some(id) = t[j].category_id {
                    lemma_prefixo_tem_categoria(c, c2, id);
                }
            } else {
                match x.categoria {
                    Some(PedidoCategoria::Nome(nome)) => {
                        lemma_ultima_com_chave_em(c, chave(nome@));
                        if ultima_com_chave(c, chave(nome@)) is None {
                            assert(c2[c.len() as int].0 == frescos[novos.len() - 1]);
                        }
                    },
                    Some(PedidoCategoria::Id(id)) => {
                        lemma_com_id_em(c, id_local(remap, id@));
                    },
                    None => {},
                }
            }
        }
    }
}

/// Importing keeps every category reference of the database resolving: the
/// categories that were there stay (categories are only added), a task that
/// comes in points at a category found or created for it, or at none, and a
/// trash entry that comes in keeps a category only where it resolves. The
/// tasks of the candidates carry no reference of their own, as the readers
/// make them: their request is the candidate's.
pub proof fn lei_importar_mantem_as_referencias(
    antes: Store,
    depois: Store,
    candidatos: Seq<Candidato>,
    categorias: Seq<Category>,
    lixo: Seq<Trashed>,
    lidos: usize,
    sem_data: usize,
    frescos: Seq<CategoryId>,
    r: ImportReport,
)
    requires
        crate::dominio::store::referencias_resolvem(antes.dados()),
        forall|k: int| 0 <= k < candidatos.len() ==> (#[trigger] candidatos[k]).todo.category_id is None,
        efeito_da_fusao(antes, depois, candidatos, categorias, lixo, lidos, sem_data, frescos, r),
    ensures
        crate::dominio::store::referencias_resolvem(depois.dados()),
{
    let db = antes.dados();
    let novos = novos_candidatos(candidatos, conhecidas(db));
    let entradas = novas_entradas(lixo, conhecidas(db) + tarefas_dos_candidatos(candidatos));
    let (cats1, remap, cr1, re1) = integracao(db.categories@, categorias);
    let (cats2, todos2, _cont, cr2, re2, sc) = resolucao(pares(cats1), remap, novos, frescos);
    let lixo2 = entradas.map_values(|e: Trashed| entrada_resolvida(cats2, remap, e));
    let nada = novos.len() == 0 && entradas.len() == 0 && cr1 + cr2 == 0;
    if !nada {
        let d = depois.dados();
        lemma_novos_vem_do_ficheiro(candidatos, conhecidas(db));
        assert forall|k: int| 0 <= k < novos.len() implies (#[trigger] novos[k]).todo.category_id is None by {
            let j = choose|j: int|
                0 <= j < candidatos.len() && #[trigger] novos[k] == candidatos[j] && entra(
                    candidatos,
                    conhecidas(db),
                    j,
                );
        }
        lemma_integracao_prefixo(db.categories@, categorias);
        lemma_resolucao_referencias(pares(cats1), remap, novos, frescos);
        assert(pares(d.categories@) == cats2);
        // A category of the database is still there, at the same place.
        assert forall|c: CategoryId| crate::dominio::store::categoria_existe(db.categories@, c@)
            implies crate::dominio::store::categoria_existe(d.categories@, c@) by {
            let i = choose|i: int| 0 <= i < db.categories@.len() && (#[trigger] db.categories@[i]).id@ == c@;
            assert(cats1[i] == db.categories@[i]);
            assert(pares(cats1)[i] == par(cats1[i]));
            assert(cats2[i] == pares(cats1)[i]);
            assert(pares(d.categories@)[i] == par(d.categories@[i]));
            assert(d.categories@[i].id == db.categories@[i].id);
        }
        // A category the resolution points at is one of the database.
        assert forall|id: CategoryId| tem_categoria(cats2, id) implies crate::dominio::store::categoria_existe(
            d.categories@,
            id@,
        ) by {
            let i = choose|i: int| 0 <= i < cats2.len() && (#[trigger] cats2[i]).0 == id;
            assert(pares(d.categories@)[i] == par(d.categories@[i]));
        }
        assert forall|i: int| 0 <= i < d.todos@.len() implies !crate::dominio::store::referencia_pendente(
            d.categories@,
            #[trigger] d.todos@[i],
        ) by {
            if i < db.todos@.len() {
                assert(d.todos@[i] == db.todos@[i]);
                assert(!crate::dominio::store::referencia_pendente(db.categories@, db.todos@[i]));
            } else {
                assert(d.todos@[i] == todos2[i - db.todos@.len()]);
            }
        }
        let todo_o_lixo = db.trash@ + lixo2;
        assert forall|i: int| 0 <= i < todo_o_lixo.len() implies !crate::dominio::store::referencia_pendente(
            d.categories@,
            (#[trigger] todo_o_lixo[i]).todo,
        ) by {
            if i < db.trash@.len() {
                assert(todo_o_lixo[i] == db.trash@[i]);
                assert(!crate::dominio::store::referencia_pendente(db.categories@, db.trash@[i].todo));
            } else {
                let e = entradas[i - db.trash@.len()];
                assert(todo_o_lixo[i] == entrada_resolvida(cats2, remap, e));
                if let Some(c) = e.todo.category_id {
                    lemma_com_id_em(cats2, id_local(remap, c@));
                }
            }
        }
        assert forall|i: int| 0 <= i < d.trash@.len() implies !crate::dominio::store::referencia_pendente(
            d.categories@,
            (#[trigger] d.trash@[i]).todo,
        ) by {
            if todo_o_lixo.len() > crate::dominio::ops::TRASH_LIMIT {
                assert(d.trash@[i] == todo_o_lixo[i + todo_o_lixo.len() - crate::dominio::ops::TRASH_LIMIT]);
            } else {
                assert(d.trash@[i] == todo_o_lixo[i]);
            }
        }
    }
}

proof fn lemma_nenhum_novo(c: Seq<Candidato>, base: Seq<Todo>)
    requires
        forall|j: int| 0 <= j < c.len() ==> crate::dominio::ops::tem_id(base, (#[trigger] c[j]).todo.id@),
    ensures
        novos_candidatos(c, base).len() == 0,
    decreases c.len(),
{
    if c.len() > 0 {
        let c0 = c.drop_last();
        assert forall|j: int| 0 <= j < c0.len() implies crate::dominio::ops::tem_id(
            base,
            (#[trigger] c0[j]).todo.id@,
        ) by {
            assert(c0[j] == c[j]);
        }
        lemma_nenhum_novo(c0, base);
        assert(crate::dominio::ops::tem_id(base, c[c.len() - 1].todo.id@));
    }
}

} // verus!
