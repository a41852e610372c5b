//! Reading a JSON file to import: the value the bytes hold, what shape it
//! has (an array of records, an envelope, anything else), the format of
//! each record of an array, and which fields of a record hold a value of the
//! wrong kind. The typed reading of each record is the caller's; what it
//! gives back is put together here with the shape read from the same bytes.

use vstd::prelude::*;

use crate::dominio::import_export::{campos_do_formato_novo, registo_do_formato_novo, vistas, ImportError, ImportReport, LegacyTodo};
use crate::dominio::importacao::{
    campo_do_erro, campo_do_erro_spec, efeito_do_envelope, efeito_dos_registos, importar_json, JsonLido,
    RegistoJson,
};
use crate::dominio::model::Todo;
use crate::dominio::store::{Db, FormaLida, Store, StoreError};
use crate::dominio::texto::iguais;

verus! {

/// A JSON value, as plain values: a number keeps its text.
#[derive(Debug, PartialEq, Eq)]
pub enum ValorJson {
    Nulo,
    Logico(bool),
    Numero(String),
    Texto(String),
    Lista(Vec<ValorJson>),
    Objecto(Vec<(String, ValorJson)>),
}

#[verifier::external_type_specification]
#[verifier::external_body]
pub struct ExValorSerde(serde_json::Value);

/// The value `serde_json::from_slice` reads in `bytes`, when they hold JSON.
pub uninterp spec fn leitura_json(bytes: Seq<u8>) -> Option<ValorJson>;

/// `serde_json::Value` as a [`ValorJson`]: one variant for each, the
/// number by its text, the fields of an object in their order.
#[verifier::external_body]
fn de_serde(v: &serde_json::Value) -> (r: ValorJson) {
    match v {
        serde_json::Value::Null => ValorJson::Nulo,
        serde_json::Value::Bool(b) => ValorJson::Logico(*b),
        serde_json::Value::Number(n) => ValorJson::Numero(n.to_string()),
        serde_json::Value::String(s) => ValorJson::Texto(s.clone()),
        serde_json::Value::Array(a) => ValorJson::Lista(a.iter().map(de_serde).collect()),
        serde_json::Value::Object(o) => ValorJson::Objecto(o.iter().map(|(k, x)| (k.clone(), de_serde(x))).collect()),
    }
}

/// `serde_json::from_slice::<serde_json::Value>`: the JSON value the bytes
/// hold, or the reader's words. The value depends on the bytes alone; the
/// words are not stated.
#[verifier::external_body]
pub fn ler_json(bytes: &[u8]) -> (r: Result<ValorJson, String>)
    ensures
        r matches Ok(v) ==> leitura_json(bytes@) == Some(v),
        r is Err ==> leitura_json(bytes@) is None,
{
    match serde_json::from_slice::<serde_json::Value>(bytes) {
        Ok(v) => Ok(de_serde(&v)),
        Err(e) => Err(e.to_string()),
    }
}

/// Whether `s.parse::<DateTime<FixedOffset>>()` reads `s`: how a task's
/// instants are read from the file.
pub uninterp spec fn instante_json(s: Seq<char>) -> bool;

/// `s.parse::<chrono::DateTime<chrono::FixedOffset>>().is_ok()`.
#[verifier::external_body]
fn le_instante_json(s: &str) -> (r: bool)
    ensures
        r == instante_json(s@),
{
    s.parse::<chrono::DateTime<chrono::FixedOffset>>().is_ok()
}

/// Whether `s.parse::<NaiveDate>()` reads `s`: how a due date is read from
/// the file.
pub uninterp spec fn dia_json(s: Seq<char>) -> bool;

/// `s.parse::<chrono::NaiveDate>().is_ok()`.
#[verifier::external_body]
fn le_dia_json(s: &str) -> (r: bool)
    ensures
        r == dia_json(s@),
{
    s.parse::<chrono::NaiveDate>().is_ok()
}

/// `v` is a text that `leitura` reads.
pub open spec fn texto_que(v: ValorJson, leitura: spec_fn(Seq<char>) -> bool) -> bool {
    v matches ValorJson::Texto(s) && leitura(s@)
}

/// The value `v` of field `campo` of a task of the new format has the kind
/// the field needs: a text for the identifier, the title and the
/// description; a boolean for `done`; one of the three names for the
/// priority; an instant for `created_at`, or null or an instant for
/// `completed_at`; null or a date for `due_at`; null or a text for the
/// category. Any other field takes anything.
pub open spec fn valor_valido(campo: Seq<char>, v: ValorJson) -> bool {
    if campo == "id"@ || campo == "title"@ || campo == "description"@ {
        v is Texto
    } else if campo == "done"@ {
        v is Logico
    } else if campo == "priority"@ {
        v matches ValorJson::Texto(s) && (s@ == "low"@ || s@ == "medium"@ || s@ == "high"@)
    } else if campo == "created_at"@ {
        v matches ValorJson::Texto(s) && instante_json(s@)
    } else if campo == "completed_at"@ {
        v is Nulo || (v matches ValorJson::Texto(s) && instante_json(s@))
    } else if campo == "due_at"@ {
        v is Nulo || (v matches ValorJson::Texto(s) && dia_json(s@))
    } else if campo == "category"@ || campo == "category_id"@ {
        v is Nulo || v is Texto
    } else {
        true
    }
}

/// Whether the value of field `campo` has the kind the field needs.
pub fn campo_valido(campo: &str, v: &ValorJson) -> (r: bool)
    ensures
        r == valor_valido(campo@, *v),
{
    proof {
        reveal_strlit("id");
        reveal_strlit("title");
        reveal_strlit("description");
        reveal_strlit("done");
        reveal_strlit("priority");
        reveal_strlit("created_at");
        reveal_strlit("completed_at");
        reveal_strlit("due_at");
        reveal_strlit("category");
        reveal_strlit("category_id");
    }
    if iguais(campo, "id") || iguais(campo, "title") || iguais(campo, "description") {
        matches!(v, ValorJson::Texto(_))
    } else if iguais(campo, "done") {
        matches!(v, ValorJson::Logico(_))
    } else if iguais(campo, "priority") {
        match v {
            ValorJson::Texto(s) => iguais(s.as_str(), "low") || iguais(s.as_str(), "medium") || iguais(
                s.as_str(),
                "high",
            ),
            _ => false,
        }
    } else if iguais(campo, "created_at") {
        match v {
            ValorJson::Texto(s) => le_instante_json(s.as_str()),
            _ => false,
        }
    } else if iguais(campo, "completed_at") {
        match v {
            ValorJson::Nulo => true,
            ValorJson::Texto(s) => le_instante_json(s.as_str()),
            _ => false,
        }
    } else if iguais(campo, "due_at") {
        match v {
            ValorJson::Nulo => true,
            ValorJson::Texto(s) => le_dia_json(s.as_str()),
            _ => false,
        }
    } else if iguais(campo, "category") || iguais(campo, "category_id") {
        matches!(v, ValorJson::Nulo) || matches!(v, ValorJson::Texto(_))
    } else {
        true
    }
}

/// The names of the fields of `campos`, in order.
pub open spec fn chaves_de(campos: Seq<(String, ValorJson)>) -> Seq<Seq<char>> {
    campos.map_values(|c: (String, ValorJson)| c.0@)
}

/// The names of the fields of `campos` whose value has the wrong kind, in
/// order.
pub open spec fn invalidos_de(campos: Seq<(String, ValorJson)>) -> Seq<Seq<char>>
    decreases campos.len(),
{
    if campos.len() == 0 {
        seq![]
    } else {
        let antes = invalidos_de(campos.drop_last());
        if valor_valido(campos.last().0@, campos.last().1) {
            antes
        } else {
            antes.push(campos.last().0@)
        }
    }
}

/// Some name among `chaves` is a field that only the new format has.
pub open spec fn formato_novo(chaves: Seq<Seq<char>>) -> bool {
    exists|i: int, j: int|
        0 <= i < chaves.len() && 0 <= j < 6 && #[trigger] chaves[i] == #[trigger] campos_do_formato_novo()[j]
}

/// The shape of a record of an array: whether it is of the new format,
/// whether it is an object, and the fields whose value has the wrong kind.
pub struct FormaRegisto {
    pub novo: bool,
    pub objeto: bool,
    pub invalidos: Vec<String>,
}

/// The shape of a record: an object is of the new format when it has a field
/// only that format has; anything else is of the old format.
pub open spec fn forma_do_registo(v: ValorJson, f: FormaRegisto) -> bool {
    match v {
        ValorJson::Objecto(campos) => {
            &&& f.objeto
            &&& f.novo == formato_novo(chaves_de(campos@))
            &&& vistas(f.invalidos@) == invalidos_de(campos@)
        },
        _ => !f.objeto && !f.novo && f.invalidos@.len() == 0,
    }
}

/// The shape of a JSON file: an array of records, an envelope (an object
/// with a `schema` field), or anything else.
pub enum FormaJson {
    Registos(Vec<FormaRegisto>),
    Envelope,
    SemEnvelope,
}

/// The object `campos` has a field named `schema`.
pub open spec fn tem_schema(campos: Seq<(String, ValorJson)>) -> bool {
    exists|i: int| 0 <= i < campos.len() && (#[trigger] campos[i]).0@ == "schema"@
}

/// `f` is the shape of the value `v`.
pub open spec fn forma_do_json(v: ValorJson, f: FormaJson) -> bool {
    match v {
        ValorJson::Lista(itens) => f matches FormaJson::Registos(fs) && fs@.len() == itens@.len()
            && forall|i: int| 0 <= i < itens@.len() ==> forma_do_registo(#[trigger] itens@[i], fs@[i]),
        ValorJson::Objecto(campos) => if tem_schema(campos@) {
            f is Envelope
        } else {
            f is SemEnvelope
        },
        _ => f is SemEnvelope,
    }
}

fn forma_de_registo(v: &ValorJson) -> (r: FormaRegisto)
    ensures
        forma_do_registo(*v, r),
{
    match v {
        ValorJson::Objecto(campos) => {
            let mut chaves: Vec<String> = Vec::new();
            let mut invalidos: Vec<String> = Vec::new();
            let mut i: usize = 0;
            while i < campos.len()
                invariant
                    0 <= i <= campos@.len(),
                    vistas(chaves@) == chaves_de(campos@.subrange(0, i as int)),
                    vistas(invalidos@) == invalidos_de(campos@.subrange(0, i as int)),
                decreases campos@.len() - i,
            {
                let ghost pre = campos@.subrange(0, i as int);
                let ghost pos = campos@.subrange(0, i + 1);
                assert(pos.drop_last() =~= pre);
                let ghost ch0 = chaves@;
                let ghost inv0 = invalidos@;
                chaves.push(campos[i].0.clone());
                assert(vistas(chaves@) =~= vistas(ch0).push(campos@[i as int].0@));
                assert(chaves_de(pos) =~= chaves_de(pre).push(pos.last().0@));
                if !campo_valido(campos[i].0.as_str(), &campos[i].1) {
                    invalidos.push(campos[i].0.clone());
                    assert(vistas(invalidos@) =~= vistas(inv0).push(campos@[i as int].0@));
                }
                i = i + 1;
            }
            assert(campos@.subrange(0, campos@.len() as int) =~= campos@);
            let novo = registo_do_formato_novo(&chaves);
            proof {
                if novo {
                    let (i, j) = choose|i: int, j: int|
                        0 <= i < chaves@.len() && 0 <= j < 6 && (#[trigger] chaves@[i])@ == (
                        #[trigger] campos_do_formato_novo()[j]);
                    assert(vistas(chaves@)[i] == chaves@[i]@);
                    assert(formato_novo(chaves_de(campos@)));
                } else {
                    assert forall|i: int, j: int|
                        0 <= i < chaves_de(campos@).len() && 0 <= j < 6 implies #[trigger] chaves_de(campos@)[i]
                            != #[trigger] campos_do_formato_novo()[j] by {
                        assert(vistas(chaves@)[i] == chaves@[i]@);
                    }
                }
            }
            FormaRegisto { novo, objeto: true, invalidos }
        },
        _ => FormaRegisto { novo: false, objeto: false, invalidos: Vec::new() },
    }
}

/// The shape of the JSON value `v`.
pub fn classificar(v: &ValorJson) -> (r: FormaJson)
    ensures
        forma_do_json(*v, r),
{
    match v {
        ValorJson::Lista(itens) => {
            let mut formas: Vec<FormaRegisto> = Vec::new();
            let mut i: usize = 0;
            while i < itens.len()
                invariant
                    0 <= i <= itens@.len(),
                    *v == ValorJson::Lista(*itens),
                    formas@.len() == i,
                    forall|k: int| 0 <= k < i ==> forma_do_registo(#[trigger] itens@[k], formas@[k]),
                decreases itens@.len() - i,
            {
                formas.push(forma_de_registo(&itens[i]));
                i = i + 1;
            }
            FormaJson::Registos(formas)
        },
        ValorJson::Objecto(campos) => {
            proof {
                reveal_strlit("schema");
            }
            let mut i: usize = 0;
            while i < campos.len()
                invariant
                    0 <= i <= campos@.len(),
                    *v == ValorJson::Objecto(*campos),
                    forall|k: int| 0 <= k < i ==> (#[trigger] campos@[k]).0@ != "schema"@,
                decreases campos@.len() - i,
            {
                if iguais(campos[i].0.as_str(), "schema") {
                    assert(campos@[i as int].0@ == "schema"@);
                    assert(tem_schema(campos@));
                    return FormaJson::Envelope;
                }
                i = i + 1;
            }
            FormaJson::SemEnvelope
        },
        _ => FormaJson::SemEnvelope,
    }
}

/// The record a typed reading gives, by the shape of the record: the
/// reading as a task when the record is of the new format, as an old record
/// otherwise. A task that does not read names the field at fault.
pub open spec fn registo_lido(
    f: FormaRegisto,
    novo: Result<Todo, String>,
    legado: Result<LegacyTodo, String>,
    r: RegistoJson,
) -> bool {
    if f.novo {
        match novo {
            Ok(t) => r == RegistoJson::Novo(t),
            Err(m) => r matches RegistoJson::NovoInvalido { campo, detalhe } && detalhe == m && campo@
                == campo_do_erro_spec(f.objeto, m@, vistas(f.invalidos@)),
        }
    } else {
        match legado {
            Ok(l) => r == RegistoJson::Legado(l),
            Err(m) => r == RegistoJson::LegadoInvalido(m),
        }
    }
}

/// Puts a record together from its shape and its typed readings, as a task
/// of the new format and as an old record.
pub fn registo_de(f: &FormaRegisto, novo: Result<Todo, String>, legado: Result<LegacyTodo, String>) -> (r:
    RegistoJson)
    ensures
        registo_lido(*f, novo, legado, r),
{
    if f.novo {
        match novo {
            Ok(t) => RegistoJson::Novo(t),
            Err(detalhe) => {
                let campo = campo_do_erro(f.objeto, detalhe.as_str(), &f.invalidos);
                RegistoJson::NovoInvalido { campo, detalhe }
            },
        }
    } else {
        match legado {
            Ok(l) => RegistoJson::Legado(l),
            Err(m) => RegistoJson::LegadoInvalido(m),
        }
    }
}

/// Imports the JSON file at `path` whose bytes are `bytes`. The value is
/// read from the bytes and its shape decides: an array is imported record
/// by record, with `registos` the records its elements give (see
/// [`registo_de`]); an envelope is imported from `envelope`, its typed
/// reading, whose error is the file's; anything else is refused. Bytes that
/// are not JSON are the reader's error, and nothing changes.
pub fn importar_json_de(
    store: &mut Store,
    path: &str,
    bytes: &[u8],
    registos: Vec<RegistoJson>,
    envelope: Result<Db, String>,
) -> (r: Result<ImportReport, ImportError>)
    requires
        registos@.len() + 1 <= u64::MAX,
        envelope matches Ok(db) ==> db.todos@.len() + db.trash@.len() <= usize::MAX
            && db.todos@.len() + db.categories@.len() <= usize::MAX,
    ensures
        r is Err ==> *final(store) == *old(store),
        leitura_json(bytes@) is None ==> (r matches Err(ImportError::Json { path: p, .. }) && p@ == path@),
        leitura_json(bytes@) matches Some(v) ==> match v {
            ValorJson::Lista(_) => efeito_dos_registos(*old(store), *final(store), path@, registos@, r),
            ValorJson::Objecto(campos) => if tem_schema(campos@) {
                match envelope {
                    Ok(db) => efeito_do_envelope(*old(store), *final(store), path@, db, r),
                    Err(m) => r matches Err(ImportError::Json { path: p, source: s }) && p@ == path@
                        && s == m,
                }
            } else {
                r matches Err(ImportError::NotEnveloped { path: p }) && p@ == path@
            },
            _ => r matches Err(ImportError::NotEnveloped { path: p }) && p@ == path@,
        },
{
    let valor = match ler_json(bytes) {
        Ok(v) => v,
        Err(source) => return Err(ImportError::Json { path: path.to_owned(), source }),
    };
    let lido = match classificar(&valor) {
        FormaJson::Registos(_) => JsonLido::Registos(registos),
        FormaJson::Envelope => match envelope {
            Ok(db) => JsonLido::Envelope(db),
            Err(source) => return Err(ImportError::Json { path: path.to_owned(), source }),
        },
        FormaJson::SemEnvelope => JsonLido::SemEnvelope,
    };
    importar_json(store, path, lido)
}

/// The shape of the database file at `path` whose bytes are `bytes`: an
/// array (the old format), an object without a `schema` field, or else the
/// envelope, from `envelope`, its typed reading, whose error is the file's.
/// Bytes that are not JSON are the reader's error.
pub fn forma_da_base(path: &str, bytes: &[u8], envelope: Result<Db, String>) -> (r: Result<
    FormaLida,
    StoreError,
>)
    ensures
        leitura_json(bytes@) is None ==> (r matches Err(StoreError::Json { path: p, .. }) && p@ == path@),
        leitura_json(bytes@) matches Some(v) ==> if v is Lista {
            r == Ok::<FormaLida, StoreError>(FormaLida::Array)
        } else if v matches ValorJson::Objecto(campos) && !tem_schema(campos@) {
            r == Ok::<FormaLida, StoreError>(FormaLida::ObjetoSemSchema)
        } else {
            match envelope {
                Ok(db) => r == Ok::<FormaLida, StoreError>(FormaLida::Envelope(db)),
                Err(m) => r matches Err(StoreError::Json { path: p, source: s }) && p@ == path@ && s == m,
            }
        },
{
    let valor = match ler_json(bytes) {
        Ok(v) => v,
        Err(source) => return Err(StoreError::Json { path: path.to_owned(), source }),
    };
    let forma = classificar(&valor);
    match (&valor, forma) {
        (ValorJson::Lista(_), _) => Ok(FormaLida::Array),
        (ValorJson::Objecto(_), FormaJson::SemEnvelope) => Ok(FormaLida::ObjetoSemSchema),
        _ => match envelope {
            Ok(db) => Ok(FormaLida::Envelope(db)),
            Err(source) => Err(StoreError::Json { path: path.to_owned(), source }),
        },
    }
}

} // verus!
