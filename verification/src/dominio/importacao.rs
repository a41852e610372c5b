//! Importing a file: which reader a path goes to, and what the records that
//! the CSV and JSON readers produced become before they are merged.
//!
//! The readers themselves (opening the file, the CSV and JSON parsers) are the
//! caller's. They hand over the records in file order, each already read or
//! already failed; the first record that fails, in that order, is the error of
//! the import, and the store is only touched when the whole file read.

use vstd::prelude::*;

use crate::dominio::atomic::{extensao, extensao_de};
use crate::dominio::import_export::{
    campo_com_erro, candidato_da_linha, colunas, colunas_v11, efeito_da_fusao, erro_de_campo, legado_legivel, linha_legivel,
    mesmas_colunas, merge, tarefa_do_legado, vistas, Candidato, CsvRow, ImportError, ImportReport,
    LegacyTodo, PedidoCategoria,
};
use crate::dominio::model::{Category, CategoryId, Todo};
use crate::dominio::store::{schema_aceite, Db, Store, Trashed, SCHEMA_VERSION};
use crate::dominio::texto::{
    aparado, caracteres, encontrar, iguais, minusculas_ascii, ocorrencia_desde, para_minuscula_ascii,
    texto_de,
};

verus! {

// ------------------------------------------------------------ the reader

/// A path is imported as CSV when its extension is `csv`, in any case;
/// everything else is read as JSON.
pub open spec fn e_csv_spec(p: Seq<char>) -> bool {
    extensao_de(p) matches Some(e) && minusculas_ascii(e) == "csv"@
}

/// Whether `path` is imported as CSV.
pub fn e_csv(path: &str) -> (r: bool)
    ensures
        r == e_csv_spec(path@),
{
    match extensao(path) {
        Some(e) => {
            let v = caracteres(e.as_str());
            let mut w: Vec<char> = Vec::new();
            let mut i: usize = 0;
            while i < v.len()
                invariant
                    0 <= i <= v@.len(),
                    w@ == minusculas_ascii(v@.subrange(0, i as int)),
                decreases v@.len() - i,
            {
                w.push(para_minuscula_ascii(v[i]));
                i = i + 1;
                assert(w@ =~= minusculas_ascii(v@.subrange(0, i as int)));
            }
            assert(v@.subrange(0, v@.len() as int) =~= v@);
            let baixo = texto_de(&w);
            iguais(baixo.as_str(), "csv")
        },
        None => false,
    }
}

// ------------------------------------------------------------------- CSV

/// The header is one of the two accepted sets of columns.
pub open spec fn cabecalho_valido(cabecalho: Seq<Seq<char>>) -> bool {
    mesmas_colunas(colunas(), cabecalho) || mesmas_colunas(colunas_v11(), cabecalho)
}

/// Every record before `k` read and gives a candidate.
pub open spec fn linhas_legiveis_ate(registos: Seq<Result<CsvRow, ImportError>>, k: int) -> bool {
    forall|i: int| 0 <= i < k ==> ((#[trigger] registos[i]) matches Ok(l) && linha_legivel(l))
}

/// When line `i` does not give a candidate, no prefix past it reads.
proof fn lemma_legiveis_ate(registos: Seq<Result<CsvRow, ImportError>>, i: int)
    requires
        0 <= i < registos.len(),
        !(registos[i] matches Ok(l) && linha_legivel(l)),
    ensures
        forall|k: int| i < k <= registos.len() ==> !linhas_legiveis_ate(registos, k),
{
    assert forall|k: int| i < k <= registos.len() implies !linhas_legiveis_ate(registos, k) by {
        if linhas_legiveis_ate(registos, k) {
            assert(registos[i] matches Ok(l) && linha_legivel(l));
        }
    }
}

/// How many of the lines came without a creation date.
pub open spec fn sem_data_do_csv(registos: Seq<Result<CsvRow, ImportError>>) -> nat
    decreases registos.len(),
{
    if registos.len() == 0 {
        0
    } else {
        sem_data_do_csv(registos.drop_last()) + match registos.last() {
            Ok(l) => if aparado(l.created_at@).len() == 0 {
                1nat
            } else {
                0nat
            },
            Err(_) => 0nat,
        }
    }
}

/// `c` holds the candidates of the lines, one for each, in order.
pub open spec fn candidatos_do_csv(registos: Seq<Result<CsvRow, ImportError>>, c: Seq<Candidato>) -> bool {
    &&& c.len() == registos.len()
    &&& forall|i: int|
        0 <= i < registos.len() ==> ((#[trigger] registos[i]) matches Ok(l) && candidato_da_linha(
            l,
            c[i],
            aparado(l.created_at@).len() == 0,
        ))
}

/// The items of `v` in reverse order, so that popping gives them in order.
fn inverter<T>(v: Vec<T>) -> (r: Vec<T>)
    ensures
        r@.len() == v@.len(),
        forall|j: int| 0 <= j < r@.len() ==> #[trigger] r@[j] == v@[v@.len() - 1 - j],
{
    let mut v = v;
    let ghost v0 = v@;
    let mut r: Vec<T> = Vec::new();
    while v.len() > 0
        invariant
            v@ == v0.subrange(0, v0.len() - r@.len()),
            r@.len() <= v0.len(),
            forall|j: int| 0 <= j < r@.len() ==> #[trigger] r@[j] == v0[v0.len() - 1 - j],
        decreases v@.len(),
    {
        let x = v.pop().unwrap();
        r.push(x);
    }
    r
}

/// What importing a CSV whose header reads `cabecalho` and whose records are
/// `registos` does: the header is checked first, then each line in turn
/// (line `k` of the list is line `k + 2` of the file), and the first that
/// does not read is the error, with the field at fault when it is certain;
/// the store only changes when every line read, by the merge of the
/// candidates of the lines.
pub open spec fn efeito_do_csv(
    antes: Store,
    depois: Store,
    path: Seq<char>,
    cabecalho: Seq<Seq<char>>,
    registos: Seq<Result<CsvRow, ImportError>>,
    r: Result<ImportReport, ImportError>,
) -> bool {
    &&& !cabecalho_valido(cabecalho) ==> (r matches Err(ImportError::Header { path: p, encontrado: e })
        && p@ == path && vistas(e@) == cabecalho)
    &&& r is Err ==> depois == antes
    &&& cabecalho_valido(cabecalho) && linhas_legiveis_ate(registos, registos.len() as int) ==> r is Ok
    &&& forall|k: int|
        0 <= k < registos.len() && cabecalho_valido(cabecalho) && linhas_legiveis_ate(registos, k)
            ==> ((#[trigger] registos[k]) matches Err(e) ==> r == Err::<ImportReport, ImportError>(e))
    &&& forall|k: int|
        0 <= k < registos.len() && cabecalho_valido(cabecalho) && linhas_legiveis_ate(registos, k)
            ==> ((#[trigger] registos[k]) matches Ok(l) ==> (campo_com_erro(l) matches Some(c) ==> (
            r matches Err(e) && erro_de_campo(path, (k + 2) as u64, c, e))))
    &&& r matches Err(e) ==> !cabecalho_valido(cabecalho) || exists|k: int|
        0 <= k < registos.len() && (#[trigger] registos[k] == Err::<CsvRow, ImportError>(e) || (
        registos[k] is Ok && (e matches ImportError::Row { path: p, linha: n, .. } && p@ == path && n
            == k + 2)))
    &&& r matches Ok(rep) ==> cabecalho_valido(cabecalho) && exists|c: Seq<Candidato>, f: Seq<CategoryId>|
        #![trigger candidatos_do_csv(registos, c), f.len()]
        candidatos_do_csv(registos, c) && f.len() == c.len() && efeito_da_fusao(
            antes,
            depois,
            c,
            Seq::<Category>::empty(),
            Seq::<Trashed>::empty(),
            registos.len() as usize,
            sem_data_do_csv(registos) as usize,
            f,
            rep,
        )
}

/// Importing the same CSV file a second time never changes the database:
/// every line of it came in the first time (or was already there), so the
/// second import inserts nothing, counts every line as a duplicate and
/// creates no category; and a second import that fails changes nothing
/// either. (A trash over its limit could lose an entry the file meets, so
/// the database's trash is within the limit.)
pub proof fn lei_importar_o_mesmo_csv_duas_vezes(
    antes: Store,
    meio: Store,
    depois: Store,
    path: Seq<char>,
    cabecalho: Seq<Seq<char>>,
    registos: Seq<Result<CsvRow, ImportError>>,
    r1: Result<ImportReport, ImportError>,
    r2: Result<ImportReport, ImportError>,
)
    requires
        antes.dados().trash@.len() <= crate::dominio::ops::TRASH_LIMIT,
        efeito_do_csv(antes, meio, path, cabecalho, registos, r1),
        r1 is Ok,
        efeito_do_csv(meio, depois, path, cabecalho, registos, r2),
    ensures
        depois == meio,
        r2 matches Ok(rep) ==> rep.lidos == registos.len() && rep.inseridos == 0 && rep.duplicados
            == registos.len() && rep.categorias_criadas == 0,
{
    if r2 is Ok {
        let rep1 = r1->Ok_0;
        let rep2 = r2->Ok_0;
        let (c1, f1) = choose|c: Seq<Candidato>, f: Seq<CategoryId>|
            #![trigger candidatos_do_csv(registos, c), f.len()]
            candidatos_do_csv(registos, c) && f.len() == c.len() && efeito_da_fusao(
                antes,
                meio,
                c,
                Seq::<Category>::empty(),
                Seq::<Trashed>::empty(),
                registos.len() as usize,
                sem_data_do_csv(registos) as usize,
                f,
                rep1,
            );
        let (c2, f2) = choose|c: Seq<Candidato>, f: Seq<CategoryId>|
            #![trigger candidatos_do_csv(registos, c), f.len()]
            candidatos_do_csv(registos, c) && f.len() == c.len() && efeito_da_fusao(
                meio,
                depois,
                c,
                Seq::<Category>::empty(),
                Seq::<Trashed>::empty(),
                registos.len() as usize,
                sem_data_do_csv(registos) as usize,
                f,
                rep2,
            );
        assert forall|j: int| 0 <= j < c1.len() implies (#[trigger] c2[j]).todo.id@ == c1[j].todo.id@ by {
            assert(registos[j] matches Ok(l) && candidato_da_linha(l, c1[j], aparado(l.created_at@).len() == 0));
            assert(registos[j] matches Ok(l) && candidato_da_linha(l, c2[j], aparado(l.created_at@).len() == 0));
        }
        crate::dominio::import_export::lei_reimportar_os_mesmos_ids(
            antes,
            meio,
            depois,
            c1,
            c2,
            registos.len() as usize,
            sem_data_do_csv(registos) as usize,
            registos.len() as usize,
            sem_data_do_csv(registos) as usize,
            f1,
            f2,
            rep1,
            rep2,
        );
    }
}

/// Imports a CSV whose header is `cabecalho` and whose records are
/// `registos`, in file order, as [`efeito_do_csv`] says. The category column
/// names the category; the file brings no list of categories and no trash.
pub fn importar_csv(
    store: &mut Store,
    path: &str,
    cabecalho: Vec<String>,
    registos: Vec<Result<CsvRow, ImportError>>,
) -> (r: Result<ImportReport, ImportError>)
    requires
        registos@.len() + 2 <= u64::MAX,
    ensures
        efeito_do_csv(*old(store), *final(store), path@, vistas(cabecalho@), registos@, r),
{
    if !crate::dominio::import_export::cabecalho_esperado(&cabecalho) {
        return Err(ImportError::Header { path: path.to_owned(), encontrado: cabecalho });
    }
    let ghost regs = registos@;
    let total = registos.len();
    let mut pilha = inverter(registos);
    let mut candidatos: Vec<Candidato> = Vec::new();
    let mut sem_data: usize = 0;
    let mut i: usize = 0;
    while i < total
        invariant
            total == regs.len(),
            regs == registos@,
            regs.len() + 2 <= u64::MAX,
            cabecalho_valido(vistas(cabecalho@)),
            *store == *old(store),
            0 <= i <= regs.len(),
            pilha@.len() == regs.len() - i,
            forall|j: int| 0 <= j < pilha@.len() ==> #[trigger] pilha@[j] == regs[regs.len() - 1 - j],
            candidatos@.len() == i,
            forall|j: int|
                0 <= j < i ==> ((#[trigger] regs[j]) matches Ok(l) && candidato_da_linha(
                    l,
                    candidatos@[j],
                    aparado(l.created_at@).len() == 0,
                )),
            sem_data == sem_data_do_csv(regs.subrange(0, i as int)),
            sem_data <= i,
            forall|j: int| 0 <= j < i ==> ((#[trigger] regs[j]) matches Ok(l) && campo_com_erro(l) is None),
        decreases regs.len() - i,
    {
        assert(regs.subrange(0, i + 1).drop_last() =~= regs.subrange(0, i as int));
        let ghost topo = pilha@.len() - 1;
        assert(pilha@[topo] == regs[i as int]);
        let registo = pilha.pop().unwrap();
        let linha = match registo {
            Ok(l) => l,
            Err(e) => {
                assert(regs[i as int] == Err::<CsvRow, ImportError>(e));
                proof {
                    lemma_legiveis_ate(regs, i as int);
                    assert forall|k: int|
                        0 <= k < regs.len() && cabecalho_valido(vistas(cabecalho@)) && linhas_legiveis_ate(
                            regs,
                            k,
                        ) implies !((#[trigger] regs[k]) matches Ok(l) && campo_com_erro(l) is Some) by {
                        if k > i {
                            assert(!linhas_legiveis_ate(regs, k));
                        }
                    }
                }
                return Err(e);
            },
        };
        let n: u64 = i as u64 + 2;
        let ghost lg = linha;
        assert(regs[i as int] == Ok::<CsvRow, ImportError>(lg));
        match linha.into_candidato(path, n) {
            Ok((c, sem)) => {
                candidatos.push(c);
                if sem {
                    sem_data = sem_data + 1;
                }
            },
            Err(e) => {
                assert(!linha_legivel(lg));
                proof {
                    lemma_legiveis_ate(regs, i as int);
                }
                return Err(e);
            },
        }
        i = i + 1;
    }
    assert(regs.subrange(0, regs.len() as int) =~= regs);
    let lidos = candidatos.len();
    let ghost c = candidatos@;
    let rep = merge(store, candidatos, Vec::new(), Vec::new(), lidos, sem_data);
    assert(candidatos_do_csv(regs, c));
    Ok(rep)
}

/// The header of the CSV text `bytes`, as the `csv` reader reads it (the
/// first record, split into its fields), when it reads.
pub uninterp spec fn cabecalho_lido(bytes: Seq<u8>) -> Option<Seq<Seq<char>>>;

/// `csv::Reader::headers` on a reader of `bytes` with a header row: the
/// fields of the first record, or the reader's words when it does not read.
/// The header depends on the bytes alone; the words of the error are not
/// stated.
#[verifier::external_body]
pub fn ler_cabecalho_csv(bytes: &[u8]) -> (r: Result<Vec<String>, String>)
    ensures
        r matches Ok(h) ==> cabecalho_lido(bytes@) == Some(vistas(h@)),
        r is Err ==> cabecalho_lido(bytes@) is None,
{
    let mut leitor = csv::ReaderBuilder::new().has_headers(true).flexible(false).from_reader(bytes);
    match leitor.headers() {
        Ok(h) => Ok(h.iter().map(str::to_owned).collect()),
        Err(e) => Err(e.to_string()),
    }
}

/// Imports the CSV file at `path` whose text is `bytes` and whose records,
/// read in file order, are `registos`: a header that does not read is a CSV
/// error and nothing changes; otherwise the import is the one
/// [`efeito_do_csv`] describes for the header read from `bytes`.
pub fn importar_csv_de(
    store: &mut Store,
    path: &str,
    bytes: &[u8],
    registos: Vec<Result<CsvRow, ImportError>>,
) -> (r: Result<ImportReport, ImportError>)
    requires
        registos@.len() + 2 <= u64::MAX,
    ensures
        cabecalho_lido(bytes@) is None ==> (r matches Err(ImportError::Csv { path: p, linha: None, .. })
            && p@ == path@ && *final(store) == *old(store)),
        cabecalho_lido(bytes@) matches Some(h) ==> efeito_do_csv(
            *old(store),
            *final(store),
            path@,
            h,
            registos@,
            r,
        ),
{
    match ler_cabecalho_csv(bytes) {
        Ok(cabecalho) => importar_csv(store, path, cabecalho, registos),
        Err(source) => Err(ImportError::Csv { path: path.to_owned(), linha: None, registo: None, source }),
    }
}

// ------------------------------------------------------------------ JSON

/// A record of a JSON array, as the reader left it.
pub enum RegistoJson {
    /// A record of the new format (it has a field that only that format
    /// has), read as a task.
    Novo(Todo),
    /// A record of the new format that does not read as a task: the field
    /// the error is about, and the reader's words.
    NovoInvalido { campo: &'static str, detalhe: String },
    /// A record of the old `rtodo` format.
    Legado(LegacyTodo),
    /// A record of the old format that does not read: the reader's words.
    LegadoInvalido(String),
}

/// What the JSON reader found in the file.
pub enum JsonLido {
    /// An array of records, each of either format.
    Registos(Vec<RegistoJson>),
    /// An object with a `schema` field: the envelope, read as a database.
    Envelope(Db),
    /// Any other JSON value.
    SemEnvelope,
}

/// The candidate a task of the new format gives: its category, if any,
/// becomes a request by `id`.
pub open spec fn do_registo_spec(t: Todo) -> Candidato {
    Candidato {
        todo: Todo { category_id: None, ..t },
        categoria: match t.category_id {
            Some(c) => Some(PedidoCategoria::Id(c)),
            None => None,
        },
    }
}

/// The records an envelope holds: its tasks and its trash entries.
pub open spec fn lidos_do_envelope(db: Db) -> usize {
    (db.todos@.len() + db.trash@.len()) as usize
}

/// The candidates of the tasks of an envelope.
pub open spec fn candidatos_do_envelope(todos: Seq<Todo>) -> Seq<Candidato> {
    todos.map_values(|t: Todo| do_registo_spec(t))
}

/// A record that gives a candidate.
pub open spec fn registo_legivel(r: RegistoJson) -> bool {
    match r {
        RegistoJson::Novo(_) => true,
        RegistoJson::Legado(l) => legado_legivel(l),
        _ => false,
    }
}

pub open spec fn registos_legiveis_ate(registos: Seq<RegistoJson>, k: int) -> bool {
    forall|i: int| 0 <= i < k ==> registo_legivel(#[trigger] registos[i])
}

/// `c` is the candidate of record `r`.
pub open spec fn candidato_do_registo(r: RegistoJson, c: Candidato) -> bool {
    match r {
        RegistoJson::Novo(t) => c == do_registo_spec(t),
        RegistoJson::Legado(l) => c.categoria is None && tarefa_do_legado(
            l,
            c.todo,
            aparado(l.date@).len() == 0,
        ),
        _ => false,
    }
}

pub open spec fn candidatos_do_json(registos: Seq<RegistoJson>, c: Seq<Candidato>) -> bool {
    &&& c.len() == registos.len()
    &&& forall|i: int| 0 <= i < registos.len() ==> candidato_do_registo(#[trigger] registos[i], c[i])
}

/// How many old-format records came without a date.
pub open spec fn sem_data_do_json(registos: Seq<RegistoJson>) -> nat
    decreases registos.len(),
{
    if registos.len() == 0 {
        0
    } else {
        sem_data_do_json(registos.drop_last()) + match registos.last() {
            RegistoJson::Legado(l) => if aparado(l.date@).len() == 0 {
                1nat
            } else {
                0nat
            },
            _ => 0nat,
        }
    }
}

proof fn lemma_registos_ate(registos: Seq<RegistoJson>, i: int)
    requires
        0 <= i < registos.len(),
        !registo_legivel(registos[i]),
    ensures
        forall|k: int| i < k <= registos.len() ==> !registos_legiveis_ate(registos, k),
{
    assert forall|k: int| i < k <= registos.len() implies !registos_legiveis_ate(registos, k) by {
        if registos_legiveis_ate(registos, k) {
            assert(registo_legivel(registos[i]));
        }
    }
}

/// What importing the records of a JSON array gives: the first record, in
/// order, that does not give a candidate is the error (record `k` is line
/// `k + 1`), and the store is then untouched; when all give one, they are
/// merged, without categories or trash.
pub open spec fn efeito_dos_registos(
    antes: Store,
    depois: Store,
    path: Seq<char>,
    registos: Seq<RegistoJson>,
    r: Result<ImportReport, ImportError>,
) -> bool {
    &&& (r is Err ==> depois == antes)
    &&& (registos_legiveis_ate(registos, registos.len() as int) ==> r is Ok)
    &&& (forall|k: int|
        0 <= k < registos.len() && registos_legiveis_ate(registos, k) ==> match #[trigger] registos[k] {
            RegistoJson::NovoInvalido { campo, detalhe } => r matches Err(
                ImportError::Row { path: p, linha: n, campo: c, detalhe: d },
            ) && p@ == path && n == k + 1 && c == campo && d == detalhe,
            RegistoJson::LegadoInvalido(detalhe) => r matches Err(
                ImportError::Row { path: p, linha: n, campo: c, detalhe: d },
            ) && p@ == path && n == k + 1 && c@ == "registo legado"@ && d == detalhe,
            _ => true,
        })
    &&& (r matches Err(e) ==> exists|k: int|
        0 <= k < registos.len() && !registo_legivel(#[trigger] registos[k]) && (e matches ImportError::Row { path: p, linha: n, .. } && p@ == path && n == k + 1))
    &&& (r matches Ok(rep) ==> exists|c: Seq<Candidato>, f: Seq<CategoryId>|
        #![trigger candidatos_do_json(registos, c), f.len()]
        candidatos_do_json(registos, c) && f.len() == c.len() && efeito_da_fusao(
            antes,
            depois,
            c,
            Seq::<Category>::empty(),
            Seq::<Trashed>::empty(),
            registos.len() as usize,
            sem_data_do_json(registos) as usize,
            f,
            rep,
        ))
}

/// Importing the same array of new-format records a second time never
/// changes the database: every record keeps its `id`, so each came in the
/// first time (or was already there), and the second import inserts
/// nothing, counts every record as a duplicate and creates no category; a
/// second import that fails changes nothing either. (A record of the old
/// format has no `id` of its own, and each reading gives it a new one, so it
/// is left out; the database's trash is within its limit.)
pub proof fn lei_importar_o_mesmo_array_duas_vezes(
    antes: Store,
    meio: Store,
    depois: Store,
    path: Seq<char>,
    registos: Seq<RegistoJson>,
    r1: Result<ImportReport, ImportError>,
    r2: Result<ImportReport, ImportError>,
)
    requires
        antes.dados().trash@.len() <= crate::dominio::ops::TRASH_LIMIT,
        forall|i: int| 0 <= i < registos.len() ==> (#[trigger] registos[i]) is Novo,
        efeito_dos_registos(antes, meio, path, registos, r1),
        r1 is Ok,
        efeito_dos_registos(meio, depois, path, registos, r2),
    ensures
        depois == meio,
        r2 matches Ok(rep) ==> rep.lidos == registos.len() && rep.inseridos == 0 && rep.duplicados
            == registos.len() && rep.categorias_criadas == 0,
{
    if r2 is Ok {
        let rep1 = r1->Ok_0;
        let rep2 = r2->Ok_0;
        let (c1, f1) = choose|c: Seq<Candidato>, f: Seq<CategoryId>|
            #![trigger candidatos_do_json(registos, c), f.len()]
            candidatos_do_json(registos, c) && f.len() == c.len() && efeito_da_fusao(
                antes,
                meio,
                c,
                Seq::<Category>::empty(),
                Seq::<Trashed>::empty(),
                registos.len() as usize,
                sem_data_do_json(registos) as usize,
                f,
                rep1,
            );
        let (c2, f2) = choose|c: Seq<Candidato>, f: Seq<CategoryId>|
            #![trigger candidatos_do_json(registos, c), f.len()]
            candidatos_do_json(registos, c) && f.len() == c.len() && efeito_da_fusao(
                meio,
                depois,
                c,
                Seq::<Category>::empty(),
                Seq::<Trashed>::empty(),
                registos.len() as usize,
                sem_data_do_json(registos) as usize,
                f,
                rep2,
            );
        assert forall|j: int| 0 <= j < c1.len() implies (#[trigger] c2[j]).todo.id@ == c1[j].todo.id@ by {
            assert(candidato_do_registo(registos[j], c1[j]));
            assert(candidato_do_registo(registos[j], c2[j]));
        }
        crate::dominio::import_export::lei_reimportar_os_mesmos_ids(
            antes,
            meio,
            depois,
            c1,
            c2,
            registos.len() as usize,
            sem_data_do_json(registos) as usize,
            registos.len() as usize,
            sem_data_do_json(registos) as usize,
            f1,
            f2,
            rep1,
            rep2,
        );
    }
}

fn importar_registos(store: &mut Store, path: &str, registos: Vec<RegistoJson>) -> (r: Result<
    ImportReport,
    ImportError,
>)
    requires
        registos@.len() + 1 <= u64::MAX,
    ensures
        efeito_dos_registos(*old(store), *final(store), path@, registos@, r),
{
    let ghost regs = registos@;
    let total = registos.len();
    let mut pilha = inverter(registos);
    let mut candidatos: Vec<Candidato> = Vec::new();
    let mut sem_data: usize = 0;
    let mut i: usize = 0;
    while i < total
        invariant
            total == regs.len(),
            regs == registos@,
            regs.len() + 1 <= u64::MAX,
            *store == *old(store),
            0 <= i <= regs.len(),
            pilha@.len() == regs.len() - i,
            forall|j: int| 0 <= j < pilha@.len() ==> #[trigger] pilha@[j] == regs[regs.len() - 1 - j],
            candidatos@.len() == i,
            forall|j: int| 0 <= j < i ==> candidato_do_registo(#[trigger] regs[j], candidatos@[j]),
            sem_data == sem_data_do_json(regs.subrange(0, i as int)),
            sem_data <= i,
        decreases regs.len() - i,
    {
        assert(regs.subrange(0, i + 1).drop_last() =~= regs.subrange(0, i as int));
        let ghost topo = pilha@.len() - 1;
        assert(pilha@[topo] == regs[i as int]);
        let registo = pilha.pop().unwrap();
        let n: u64 = i as u64 + 1;
        match registo {
            RegistoJson::Novo(t) => {
                candidatos.push(Candidato::do_registo(t));
            },
            RegistoJson::NovoInvalido { campo, detalhe } => {
                proof {
                    lemma_registos_ate(regs, i as int);
                }
                return Err(ImportError::Row { path: path.to_owned(), linha: n, campo, detalhe });
            },
            RegistoJson::Legado(l) => {
                let ghost lg = l;
                match l.into_todo(path, n) {
                    Ok((t, sem)) => {
                        candidatos.push(Candidato::do_registo(t));
                        if sem {
                            sem_data = sem_data + 1;
                        }
                    },
                    Err(e) => {
                        assert(!legado_legivel(lg));
                        proof {
                            lemma_registos_ate(regs, i as int);
                        }
                        return Err(e);
                    },
                }
            },
            RegistoJson::LegadoInvalido(detalhe) => {
                proof {
                    lemma_registos_ate(regs, i as int);
                }
                return Err(
                    ImportError::Row { path: path.to_owned(), linha: n, campo: "registo legado", detalhe },
                );
            },
        }
        i = i + 1;
    }
    assert(regs.subrange(0, regs.len() as int) =~= regs);
    let lidos = candidatos.len();
    let ghost c = candidatos@;
    let rep = merge(store, candidatos, Vec::new(), Vec::new(), lidos, sem_data);
    assert(candidatos_do_json(regs, c));
    Ok(rep)
}

/// Imports what the JSON reader found in the file at `path`.
///
/// An array is read record by record, in either format. An envelope must
/// have a schema this version reads; its categories come in before its
/// tasks, and its trash too. Any other value is refused.
pub fn importar_json(store: &mut Store, path: &str, lido: JsonLido) -> (r: Result<
    ImportReport,
    ImportError,
>)
    requires
        lido matches JsonLido::Registos(regs) ==> regs@.len() + 1 <= u64::MAX,
        lido matches JsonLido::Envelope(db) ==> db.todos@.len() + db.trash@.len() <= usize::MAX
            && db.todos@.len() + db.categories@.len() <= usize::MAX,
    ensures
        r is Err ==> *final(store) == *old(store),
        lido is SemEnvelope ==> (r matches Err(ImportError::NotEnveloped { path: p }) && p@ == path@),
        lido matches JsonLido::Registos(regs) ==> efeito_dos_registos(*old(store), *final(store), path@, regs@, r),
        lido matches JsonLido::Envelope(db) ==> efeito_do_envelope(*old(store), *final(store), path@, db, r),
{
    match lido {
        JsonLido::Registos(registos) => importar_registos(store, path, registos),
        JsonLido::Envelope(db) => importar_envelope(store, path, db),
        JsonLido::SemEnvelope => Err(ImportError::NotEnveloped { path: path.to_owned() }),
    }
}

/// What importing an envelope gives: a schema this version reads, or the
/// error that names it; the categories come in before the tasks, and the
/// trash too.
pub open spec fn efeito_do_envelope(
    antes: Store,
    depois: Store,
    path: Seq<char>,
    db: Db,
    r: Result<ImportReport, ImportError>,
) -> bool {
    &&& (r is Ok <==> schema_aceite(db.schema))
    &&& (r is Err ==> depois == antes)
    &&& (!schema_aceite(db.schema) ==> (r matches Err(
        ImportError::Schema { path: p, encontrado: e, esperado: x },
    ) && p@ == path && e == db.schema && x == SCHEMA_VERSION))
    &&& (r matches Ok(rep) ==> exists|f: Seq<CategoryId>|
        f.len() == db.todos@.len() && #[trigger] efeito_da_fusao(
            antes,
            depois,
            candidatos_do_envelope(db.todos@),
            db.categories@,
            db.trash@,
            lidos_do_envelope(db),
            0,
            f,
            rep,
        ))
}

proof fn lemma_envelope_aceite(antes: Store, depois: Store, path: Seq<char>, db: Db, rep: ImportReport, f: Seq<CategoryId>)
    requires
        schema_aceite(db.schema),
        f.len() == db.todos@.len(),
        efeito_da_fusao(
            antes,
            depois,
            candidatos_do_envelope(db.todos@),
            db.categories@,
            db.trash@,
            lidos_do_envelope(db),
            0,
            f,
            rep,
        ),
    ensures
        efeito_do_envelope(antes, depois, path, db, Ok(rep)),
{
    let r = Ok::<ImportReport, ImportError>(rep);
    assert(r->Ok_0 == rep);
}

fn importar_envelope(store: &mut Store, path: &str, db: Db) -> (r: Result<ImportReport, ImportError>)
    requires
        db.todos@.len() + db.trash@.len() <= usize::MAX,
        db.todos@.len() + db.categories@.len() <= usize::MAX,
    ensures
        efeito_do_envelope(*old(store), *final(store), path@, db, r),
{
    if !(db.schema == SCHEMA_VERSION - 1 || db.schema == SCHEMA_VERSION) {
        return Err(
            ImportError::Schema { path: path.to_owned(), encontrado: db.schema, esperado: SCHEMA_VERSION },
        );
    }
    let ghost d = db;
    let lidos = db.todos.len() + db.trash.len();
    let Db { schema: _, todos, trash, trash_dropped: _, categories } = db;
    let ghost ts = todos@;
    let candidatos = como_candidatos(todos);
    assert(candidatos@ =~= candidatos_do_envelope(ts));
    let ghost antes = *store;
    let rep = merge(store, candidatos, categories, trash, lidos, 0);
    let ghost f = choose|f: Seq<CategoryId>|
        f.len() == candidatos_do_envelope(ts).len() && #[trigger] efeito_da_fusao(
            antes,
            *store,
            candidatos_do_envelope(ts),
            d.categories@,
            d.trash@,
            lidos,
            0,
            f,
            rep,
        );
    assert(efeito_da_fusao(antes, *store, candidatos_do_envelope(d.todos@), d.categories@, d.trash@, lidos_do_envelope(d), 0, f, rep));
    assert(schema_aceite(d.schema));
    assert(f.len() == d.todos@.len());
    proof {
        lemma_envelope_aceite(antes, *store, path@, d, rep, f);
    }
    Ok(rep)
}

/// The candidates of the tasks of an envelope, in order.
fn como_candidatos(todos: Vec<Todo>) -> (r: Vec<Candidato>)
    ensures
        r@.len() == todos@.len(),
        forall|i: int| 0 <= i < todos@.len() ==> #[trigger] r@[i] == do_registo_spec(todos@[i]),
{
    let ghost ts = todos@;
    let total = todos.len();
    let mut pilha = inverter(todos);
    let mut r: Vec<Candidato> = Vec::new();
    let mut i: usize = 0;
    while i < total
        invariant
            total == ts.len(),
            0 <= i <= total,
            pilha@.len() == ts.len() - i,
            forall|j: int| 0 <= j < pilha@.len() ==> #[trigger] pilha@[j] == ts[ts.len() - 1 - j],
            r@.len() == i,
            forall|j: int| 0 <= j < i ==> #[trigger] r@[j] == do_registo_spec(ts[j]),
        decreases total - i,
    {
        let ghost topo = pilha@.len() - 1;
        assert(pilha@[topo] == ts[i as int]);
        let t = pilha.pop().unwrap();
        r.push(Candidato::do_registo(t));
        i = i + 1;
    }
    r
}

// ------------------------------------------------ the field of an error

/// The text of the reader's "missing field" error for `campo`.
pub open spec fn falta_o_campo(campo: Seq<char>) -> Seq<char> {
    "missing field `"@ + campo + "`"@
}

/// `mensagem` contains `parte`.
pub open spec fn contem_texto(mensagem: Seq<char>, parte: Seq<char>) -> bool {
    ocorrencia_desde(mensagem, parte, 0) is Some
}

/// The first column, in the order of [`CSV_COLUMNS`] from position `k`,
/// that the message says is missing.
pub open spec fn primeira_em_falta(mensagem: Seq<char>, k: int) -> Option<Seq<char>>
    decreases 9 - k,
{
    if k < 0 || k >= 9 {
        None
    } else if contem_texto(mensagem, falta_o_campo(colunas()[k])) {
        Some(colunas()[k])
    } else {
        primeira_em_falta(mensagem, k + 1)
    }
}

/// The first column, in the order of [`CSV_COLUMNS`] from position `k`,
/// whose value the record has and the reader refused.
pub open spec fn primeira_invalida(invalidos: Seq<Seq<char>>, k: int) -> Option<Seq<char>>
    decreases 9 - k,
{
    if k < 0 || k >= 9 {
        None
    } else if invalidos.contains(colunas()[k]) {
        Some(colunas()[k])
    } else {
        primeira_invalida(invalidos, k + 1)
    }
}

/// The field a reading error of a new-format record is about.
///
/// The reader names the field only when it is missing; for a value of the
/// wrong type it does not, so the fields are checked one by one in the order
/// of the task's fields, `category_id` last, and the first that does not
/// read is the culprit. When the record is not even an object, or nothing
/// is found, the error is about the record as a whole.
pub open spec fn campo_do_erro_spec(objeto: bool, mensagem: Seq<char>, invalidos: Seq<Seq<char>>) -> Seq<char> {
    if !objeto {
        "registo novo"@
    } else {
        match primeira_em_falta(mensagem, 0) {
            Some(c) => c,
            None => match primeira_invalida(invalidos, 0) {
                Some(c) => c,
                None => if invalidos.contains("category_id"@) {
                    "category_id"@
                } else {
                    "registo novo"@
                },
            },
        }
    }
}

fn contem_nome(v: &Vec<String>, k: &str) -> (r: bool)
    ensures
        r == vistas(v@).contains(k@),
{
    let mut j: usize = 0;
    while j < v.len()
        invariant
            0 <= j <= v@.len(),
            forall|q: int| 0 <= q < j ==> (#[trigger] vistas(v@)[q]) != k@,
        decreases v@.len() - j,
    {
        if iguais(v[j].as_str(), k) {
            assert(vistas(v@)[j as int] == k@);
            return true;
        }
        j = j + 1;
    }
    false
}

/// The field a reading error is about: `objeto` says whether the record is
/// a JSON object, `mensagem` is the reader's error, and `invalidos` the
/// fields the record has whose value does not read with the type of the
/// task.
pub fn campo_do_erro(objeto: bool, mensagem: &str, invalidos: &Vec<String>) -> (r: &'static str)
    ensures
        r@ == campo_do_erro_spec(objeto, mensagem@, vistas(invalidos@)),
{
    if !objeto {
        return "registo novo";
    }
    let colunas_ = crate::dominio::import_export::colunas_vec();
    let texto = caracteres(mensagem);
    let mut k: usize = 0;
    while k < 9
        invariant
            0 <= k <= 9,
            objeto,
            vistas(colunas_@) == colunas(),
            colunas_@.len() == 9,
            texto@ == mensagem@,
            primeira_em_falta(mensagem@, 0) == primeira_em_falta(mensagem@, k as int),
        decreases 9 - k,
    {
        let mut procura = "missing field `".to_owned();
        procura.append(colunas_[k].as_str());
        procura.append("`");
        assert(procura@ == falta_o_campo(colunas()[k as int]));
        if encontrar(&texto, &caracteres(procura.as_str())).is_some() {
            assert(primeira_em_falta(mensagem@, k as int) == Some(colunas()[k as int]));
            return crate::dominio::import_export::coluna_estatica(k);
        }
        k = k + 1;
    }
    let mut k: usize = 0;
    while k < 9
        invariant
            0 <= k <= 9,
            objeto,
            vistas(colunas_@) == colunas(),
            colunas_@.len() == 9,
            primeira_em_falta(mensagem@, 0) is None,
            primeira_invalida(vistas(invalidos@), 0) == primeira_invalida(vistas(invalidos@), k as int),
        decreases 9 - k,
    {
        if contem_nome(invalidos, colunas_[k].as_str()) {
            assert(vistas(colunas_@)[k as int] == colunas_@[k as int]@);
            assert(primeira_invalida(vistas(invalidos@), k as int) == Some(colunas()[k as int]));
            return crate::dominio::import_export::coluna_estatica(k);
        }
        k = k + 1;
    }
    if contem_nome(invalidos, "category_id") {
        "category_id"
    } else {
        "registo novo"
    }
}

} // verus!
