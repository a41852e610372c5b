//! The database in memory: the envelope (`schema`, tasks, trash, categories),
//! what reading a file accepts and refuses, and where the file lives.
//!
//! Reading and writing bytes is the caller's job; here is what is decided
//! about them. A bare JSON array (the old `rtodo` format) and an object
//! without `schema` are refused, as is a generation this version cannot
//! keep; an accepted file comes out as the current generation, with every
//! category reference resolving.

use vstd::prelude::*;

use crate::dominio::atomic::{self, caminho_junto, com_sufixo, juntar_caminho};
use crate::dominio::model::{Category, CategoryId, Todo};
use crate::dominio::tempo::Instante;
use crate::dominio::texto::{decimal, em_decimal};

verus! {

/// Version of the on-disk format. The trash came with schema 2, the
/// categories with schema 3.
pub const SCHEMA_VERSION: u32 = 3;

/// Environment variable that replaces the database path.
pub const ENV_DB: &'static str = "TODO_RATATUI_DB";

/// File name of the database.
pub const DB_FILE_NAME: &'static str = "db.json";

/// Directory of the application inside the data directory.
pub const APP_DIR: &'static str = "todo-ratatui";

/// The generations that reading accepts: the current one and the one before.
pub open spec fn schema_aceite(schema: u32) -> bool {
    schema == SCHEMA_VERSION - 1 || schema == SCHEMA_VERSION
}

/// A removed task, kept instead of deleted so that it can be put back.
#[derive(Debug, Clone, PartialEq, Eq)]
pub struct Trashed {
    pub todo: Todo,
    /// Position the task had in the list when it was removed.
    pub index: usize,
    pub deleted_at: Instante,
    /// The removal it belongs to: clearing the completed tasks makes one
    /// batch of several entries, and undo puts a whole batch back.
    pub batch: u64,
}

impl Trashed {
    pub fn copia(&self) -> (r: Trashed)
        ensures
            r == *self,
    {
        Trashed { todo: self.todo.copia(), index: self.index, deleted_at: self.deleted_at, batch: self.batch }
    }
}

/// The whole database.
#[derive(Debug, Clone, PartialEq, Eq)]
pub struct Db {
    pub schema: u32,
    pub todos: Vec<Todo>,
    pub trash: Vec<Trashed>,
    /// How many entries left the trash because it reached its limit.
    pub trash_dropped: u64,
    /// Known categories, in insertion order.
    pub categories: Vec<Category>,
}

impl Db {
    pub fn empty() -> (r: Db)
        ensures
            r.schema == SCHEMA_VERSION,
            r.todos@.len() == 0,
            r.trash@.len() == 0,
            r.trash_dropped == 0,
            r.categories@.len() == 0,
    {
        Db {
            schema: SCHEMA_VERSION,
            todos: Vec::new(),
            trash: Vec::new(),
            trash_dropped: 0,
            categories: Vec::new(),
        }
    }
}

impl Default for Db {
    fn default() -> (r: Db)
        ensures
            r.schema == SCHEMA_VERSION,
            r.todos@.len() == 0,
            r.trash@.len() == 0,
            r.trash_dropped == 0,
            r.categories@.len() == 0,
    {
        Db::empty()
    }
}

/// Some category in `cats` has the identifier `id`.
pub open spec fn categoria_existe(cats: Seq<Category>, id: Seq<char>) -> bool {
    exists|i: int| 0 <= i < cats.len() && (#[trigger] cats[i]).id@ == id
}

/// The task points at a category that `cats` does not have.
pub open spec fn referencia_pendente(cats: Seq<Category>, t: Todo) -> bool {
    t.category_id matches Some(c) && !categoria_existe(cats, c@)
}

/// The task with a reference that does not resolve put to `None`.
pub open spec fn normalizado(cats: Seq<Category>, t: Todo) -> Todo {
    if referencia_pendente(cats, t) {
        Todo { category_id: None, ..t }
    } else {
        t
    }
}

/// How many tasks of `s` hold a reference that does not resolve.
pub open spec fn pendentes(cats: Seq<Category>, s: Seq<Todo>) -> nat
    decreases s.len(),
{
    if s.len() == 0 {
        0
    } else {
        pendentes(cats, s.drop_last()) + if referencia_pendente(cats, s.last()) {
            1nat
        } else {
            0nat
        }
    }
}

/// The tasks of the trash entries, in order.
pub open spec fn tarefas_do_lixo(s: Seq<Trashed>) -> Seq<Todo> {
    s.map_values(|e: Trashed| e.todo)
}

/// Every category reference, in the list and in the trash, resolves.
pub open spec fn referencias_resolvem(db: Db) -> bool {
    &&& forall|i: int|
        0 <= i < db.todos@.len() ==> !referencia_pendente(db.categories@, #[trigger] db.todos@[i])
    &&& forall|i: int|
        0 <= i < db.trash@.len() ==> !referencia_pendente(
            db.categories@,
            (#[trigger] db.trash@[i]).todo,
        )
}

/// Whether `cats` has a category with identifier `id`.
pub fn tem_categoria(cats: &Vec<Category>, id: &CategoryId) -> (r: bool)
    ensures
        r == categoria_existe(cats@, id@),
{
    let mut i: usize = 0;
    while i < cats.len()
        invariant
            0 <= i <= cats@.len(),
            forall|k: int| 0 <= k < i ==> (#[trigger] cats@[k]).id@ != id@,
        decreases cats@.len() - i,
    {
        if cats[i].id.igual(id) {
            return true;
        }
        i = i + 1;
    }
    false
}

/// Puts to `None` every category reference that does not resolve, in the
/// list and in the trash, and returns how many it changed. Nothing else is
/// touched.
pub fn normalizar_referencias(db: &mut Db) -> (r: u64)
    requires
        old(db).todos@.len() + old(db).trash@.len() <= u64::MAX,
    ensures
        final(db).schema == old(db).schema,
        final(db).trash_dropped == old(db).trash_dropped,
        final(db).categories == old(db).categories,
        final(db).todos@ == old(db).todos@.map_values(
            |t: Todo| normalizado(old(db).categories@, t),
        ),
        final(db).trash@.len() == old(db).trash@.len(),
        forall|i: int|
            0 <= i < old(db).trash@.len() ==> #[trigger] final(db).trash@[i] == (Trashed {
                todo: normalizado(old(db).categories@, old(db).trash@[i].todo),
                ..old(db).trash@[i]
            }),
        r == pendentes(old(db).categories@, old(db).todos@) + pendentes(
            old(db).categories@,
            tarefas_do_lixo(old(db).trash@),
        ),
        referencias_resolvem(*final(db)),
{
    let ghost cats = db.categories@;
    let ghost todos0 = db.todos@;
    let ghost trash0 = db.trash@;
    let mut corrigidas: u64 = 0;
    let mut i: usize = 0;
    let n = db.todos.len();
    while i < n
        invariant
            n == todos0.len(),
            0 <= i <= n,
            db.categories@ == cats,
            db.schema == old(db).schema,
            db.trash_dropped == old(db).trash_dropped,
            db.categories == old(db).categories,
            db.trash@ == trash0,
            db.todos@.len() == n,
            forall|k: int| 0 <= k < i ==> #[trigger] db.todos@[k] == normalizado(cats, todos0[k]),
            forall|k: int| i <= k < n ==> #[trigger] db.todos@[k] == todos0[k],
            corrigidas == pendentes(cats, todos0.subrange(0, i as int)),
            corrigidas <= i,
        decreases n - i,
    {
        let pendente = match &db.todos[i].category_id {
            Some(id) => !tem_categoria(&db.categories, id),
            None => false,
        };
        assert(todos0.subrange(0, i + 1).drop_last() =~= todos0.subrange(0, i as int));
        if pendente {
            let mut t = db.todos[i].copia();
            t.category_id = None;
            db.todos.set(i, t);
            corrigidas = corrigidas + 1;
        }
        i = i + 1;
    }
    assert(todos0.subrange(0, n as int) =~= todos0);
    assert(db.todos@ =~= todos0.map_values(|t: Todo| normalizado(cats, t)));
    let ghost lixo0 = tarefas_do_lixo(trash0);
    let m = db.trash.len();
    let mut no_lixo: u64 = 0;
    let mut j: usize = 0;
    while j < m
        invariant
            m == trash0.len(),
            0 <= j <= m,
            db.categories@ == cats,
            db.schema == old(db).schema,
            db.trash_dropped == old(db).trash_dropped,
            db.categories == old(db).categories,
            db.todos@ == todos0.map_values(|t: Todo| normalizado(cats, t)),
            corrigidas <= n,
            n + m <= u64::MAX,
            db.trash@.len() == m,
            lixo0 == tarefas_do_lixo(trash0),
            forall|k: int|
                0 <= k < j ==> #[trigger] db.trash@[k] == (Trashed {
                    todo: normalizado(cats, trash0[k].todo),
                    ..trash0[k]
                }),
            forall|k: int| j <= k < m ==> #[trigger] db.trash@[k] == trash0[k],
            no_lixo == pendentes(cats, lixo0.subrange(0, j as int)),
            no_lixo <= j,
        decreases m - j,
    {
        let pendente = match &db.trash[j].todo.category_id {
            Some(id) => !tem_categoria(&db.categories, id),
            None => false,
        };
        assert(lixo0.subrange(0, j + 1).drop_last() =~= lixo0.subrange(0, j as int));
        assert(lixo0[j as int] == trash0[j as int].todo);
        if pendente {
            let mut e = db.trash[j].copia();
            e.todo.category_id = None;
            db.trash.set(j, e);
            no_lixo = no_lixo + 1;
        }
        j = j + 1;
    }
    assert(lixo0.subrange(0, m as int) =~= lixo0);
    assert(corrigidas <= n && no_lixo <= m);
    corrigidas + no_lixo
}

/// How a file read from disk looks once parsed, before it becomes a [`Db`].
pub enum FormaLida {
    /// A bare JSON array: the old `rtodo` format (`Vec<Todo>`).
    Array,
    /// A JSON object without the `schema` key: not one of our envelopes.
    ObjetoSemSchema,
    /// An envelope, already parsed.
    Envelope(Db),
}

/// Persistence errors. Each names the file it is about.
#[derive(Debug, Clone, PartialEq, Eq)]
pub enum StoreError {
    Io { path: String, source: String },
    Json { path: String, source: String },
    /// The file is a JSON array: the shape of the old `rtodo`.
    LegacyShape { path: String },
    /// A JSON object without the `schema` field.
    NotEnveloped { path: String },
    UnsupportedSchema { path: String, found: u32, expected: u32 },
    NoDataDir,
    NoBackup(String),
}

/// The text of a persistence error, as shown to the user.
pub open spec fn texto_do_erro(e: StoreError) -> Seq<char> {
    match e {
        StoreError::Io { path, source } => "falha de I/O em «"@ + path@ + "»: "@ + source@,
        StoreError::Json { path, source } => "JSON inválido em «"@ + path@ + "»: "@ + source@,
        StoreError::LegacyShape { path } => "«"@ + path@
            + "» é um array JSON sem envelope: parece o formato legado do rtodo; converte-o com o import em vez de o abrires como base de dados"@,
        StoreError::NotEnveloped { path } => "«"@ + path@
            + "» é um objeto JSON sem o campo `schema`: não é uma base de dados do todo-ratatui"@,
        StoreError::UnsupportedSchema { path, found, expected } => "schema "@ + decimal(
            found as nat,
        ) + " em «"@ + path@ + "» não é suportado (esperado "@ + decimal(expected as nat) + ")"@,
        StoreError::NoDataDir => "não consigo determinar o diretório de dados: define XDG_DATA_HOME ou HOME, ou usa --db <caminho>"@,
        StoreError::NoBackup(path) => "não há backup para restaurar: «"@ + path@ + "» não existe"@,
    }
}

impl StoreError {
    /// The file the error is about, when there is one.
    pub fn path(&self) -> (r: Option<&str>)
        ensures
            match *self {
                StoreError::Io { path, .. } => r matches Some(p) && p@ == path@,
                StoreError::Json { path, .. } => r matches Some(p) && p@ == path@,
                StoreError::LegacyShape { path } => r matches Some(p) && p@ == path@,
                StoreError::NotEnveloped { path } => r matches Some(p) && p@ == path@,
                StoreError::UnsupportedSchema { path, .. } => r matches Some(p) && p@ == path@,
                StoreError::NoBackup(path) => r matches Some(p) && p@ == path@,
                StoreError::NoDataDir => r is None,
            },
    {
        match self {
            StoreError::Io { path, .. } => Some(path.as_str()),
            StoreError::Json { path, .. } => Some(path.as_str()),
            StoreError::LegacyShape { path } => Some(path.as_str()),
            StoreError::NotEnveloped { path } => Some(path.as_str()),
            StoreError::UnsupportedSchema { path, .. } => Some(path.as_str()),
            StoreError::NoBackup(path) => Some(path.as_str()),
            StoreError::NoDataDir => None,
        }
    }

    /// The message shown to the user.
    pub fn mensagem(&self) -> (r: String)
        ensures
            r@ == texto_do_erro(*self),
    {
        let mut s = String::new();
        match self {
            StoreError::Io { path, source } => {
                s.append("falha de I/O em «");
                s.append(path.as_str());
                s.append("»: ");
                s.append(source.as_str());
            },
            StoreError::Json { path, source } => {
                s.append("JSON inválido em «");
                s.append(path.as_str());
                s.append("»: ");
                s.append(source.as_str());
            },
            StoreError::LegacyShape { path } => {
                s.append("«");
                s.append(path.as_str());
                s.append(
                    "» é um array JSON sem envelope: parece o formato legado do rtodo; converte-o com o import em vez de o abrires como base de dados",
                );
            },
            StoreError::NotEnveloped { path } => {
                s.append("«");
                s.append(path.as_str());
                s.append(
                    "» é um objeto JSON sem o campo `schema`: não é uma base de dados do todo-ratatui",
                );
            },
            StoreError::UnsupportedSchema { path, found, expected } => {
                s.append("schema ");
                s.append(em_decimal(*found as u64).as_str());
                s.append(" em «");
                s.append(path.as_str());
                s.append("» não é suportado (esperado ");
                s.append(em_decimal(*expected as u64).as_str());
                s.append(")");
            },
            StoreError::NoDataDir => {
                s.append(
                    "não consigo determinar o diretório de dados: define XDG_DATA_HOME ou HOME, ou usa --db <caminho>",
                );
            },
            StoreError::NoBackup(path) => {
                s.append("não há backup para restaurar: «");
                s.append(path.as_str());
                s.append("» não existe");
            },
        }
        assert(s@ =~= texto_do_erro(*self));
        s
    }
}

/// Where the database lives: `--db <path>`, then the environment variable
/// (when set and not empty), then `<data dir>/todo-ratatui/db.json`.
///
/// The caller reads the variable and asks the system for its data directory;
/// this decides between them.
pub fn resolve_path(explicit: Option<&str>, env: Option<&str>, data_dir: Option<&str>) -> (r:
    Result<String, StoreError>)
    ensures
        explicit matches Some(p) ==> (r matches Ok(q) && q@ == p@),
        explicit is None && (env matches Some(v) && v@.len() > 0) ==> (r matches Ok(q) && q@
            == env->0@),
        explicit is None && !(env matches Some(v) && v@.len() > 0) ==> match data_dir {
            Some(base) => (r matches Ok(q) && q@ == caminho_junto(
                caminho_junto(base@, APP_DIR@),
                DB_FILE_NAME@,
            )),
            None => r == Err::<String, StoreError>(StoreError::NoDataDir),
        },
        explicit is None && !(env matches Some(v) && v@.len() > 0) ==> (data_dir matches Some(base)
            ==> (base@.len() > 0 && base@.last() != '/' ==> (r matches Ok(q) && q@ == base@ + "/"@
            + APP_DIR@ + "/"@ + DB_FILE_NAME@))),
{
    if let Some(p) = explicit {
        return Ok(p.to_owned());
    }
    if let Some(v) = env {
        if !v.is_empty() {
            return Ok(v.to_owned());
        }
    }
    match data_dir {
        Some(base) => {
            proof {
                reveal_strlit("todo-ratatui");
                reveal_strlit("db.json");
            }
            let dir = juntar_caminho(base, APP_DIR);
            let q = juntar_caminho(dir.as_str(), DB_FILE_NAME);
            proof {
                if base@.len() > 0 && base@.last() != '/' {
                    assert(dir@.last() == APP_DIR@.last());
                    assert(q@ =~= base@ + "/"@ + APP_DIR@ + "/"@ + DB_FILE_NAME@);
                }
            }
            Ok(q)
        },
        None => Err(StoreError::NoDataDir),
    }
}

/// Path of the backup (`db.json.bak`) of a database path, for whoever needs
/// to name it without a [`Store`] open.
pub fn backup_path_for(path: &str) -> (r: String)
    ensures
        r@ == com_sufixo(path@, "bak"@),
{
    atomic::backup_path_for(path)
}

/// The database in memory, tied to the path of its file.
#[derive(Debug, Clone)]
pub struct Store {
    path: String,
    db: Db,
    /// How many dangling category references the read that opened this
    /// database corrected. A count of the read, not data: it is not written.
    referencias_recuperadas: u64,
}

/// The store that opening the envelope `db` at `path` gives: the current
/// schema, every reference that does not resolve put to `None` (in the list
/// and in the trash), and the count of those corrections.
pub open spec fn aberta(path: Seq<char>, db: Db, s: Store) -> bool {
    &&& s.caminho() == path
    &&& s.dados().schema == SCHEMA_VERSION
    &&& s.dados().categories == db.categories
    &&& s.dados().trash_dropped == db.trash_dropped
    &&& s.dados().todos@ == db.todos@.map_values(|t: Todo| normalizado(db.categories@, t))
    &&& s.dados().trash@.len() == db.trash@.len()
    &&& forall|i: int|
        0 <= i < db.trash@.len() ==> #[trigger] s.dados().trash@[i] == (Trashed {
            todo: normalizado(db.categories@, db.trash@[i].todo),
            ..db.trash@[i]
        })
    &&& s.recuperadas() == pendentes(db.categories@, db.todos@) + pendentes(
        db.categories@,
        tarefas_do_lixo(db.trash@),
    )
    &&& referencias_resolvem(s.dados())
}

proof fn lemma_sem_pendentes(cats: Seq<Category>, s: Seq<Todo>)
    requires
        forall|i: int| 0 <= i < s.len() ==> !referencia_pendente(cats, #[trigger] s[i]),
    ensures
        pendentes(cats, s) == 0,
    decreases s.len(),
{
    if s.len() > 0 {
        let d = s.drop_last();
        assert forall|i: int| 0 <= i < d.len() implies !referencia_pendente(cats, #[trigger] d[i]) by {
            assert(d[i] == s[i]);
        }
        lemma_sem_pendentes(cats, d);
        assert(!referencia_pendente(cats, s[s.len() - 1]));
    }
}

/// Opening what was saved gives it back: an envelope of the current schema
/// whose references all resolve opens as the same database, with no
/// reference recovered.
pub proof fn lei_abrir_o_que_se_gravou(path: Seq<char>, db: Db, s: Store)
    requires
        db.schema == SCHEMA_VERSION,
        referencias_resolvem(db),
        aberta(path, db, s),
    ensures
        s.caminho() == path,
        s.dados().schema == db.schema,
        s.dados().todos@ == db.todos@,
        s.dados().trash@ == db.trash@,
        s.dados().categories@ == db.categories@,
        s.dados().trash_dropped == db.trash_dropped,
        s.recuperadas() == 0,
{
    let cats = db.categories@;
    assert(s.dados().todos@ =~= db.todos@);
    assert forall|i: int| 0 <= i < db.trash@.len() implies s.dados().trash@[i] == db.trash@[i] by {
        assert(!referencia_pendente(cats, db.trash@[i].todo));
    }
    assert(s.dados().trash@ =~= db.trash@);
    lemma_sem_pendentes(cats, db.todos@);
    let l = tarefas_do_lixo(db.trash@);
    assert forall|i: int| 0 <= i < l.len() implies !referencia_pendente(cats, #[trigger] l[i]) by {
        assert(l[i] == db.trash@[i].todo);
    }
    lemma_sem_pendentes(cats, l);
}

impl Store {
    /// The database held.
    pub closed spec fn dados(&self) -> Db {
        self.db
    }

    /// The path of the file.
    pub closed spec fn caminho(&self) -> Seq<char> {
        self.path@
    }

    /// The count of references corrected by the read that opened it.
    pub closed spec fn recuperadas(&self) -> u64 {
        self.referencias_recuperadas
    }

    /// An empty database tied to `path`: what opening a file that does not
    /// exist gives.
    pub fn vazia(path: String) -> (r: Store)
        ensures
            r.caminho() == path@,
            r.dados().schema == SCHEMA_VERSION,
            r.dados().todos@.len() == 0,
            r.dados().trash@.len() == 0,
            r.dados().trash_dropped == 0,
            r.dados().categories@.len() == 0,
            r.recuperadas() == 0,
    {
        Store { path, db: Db::empty(), referencias_recuperadas: 0 }
    }

    /// A database tied to `path` holding `db` as it is.
    pub fn com_db(path: String, db: Db) -> (r: Store)
        ensures
            r.caminho() == path@,
            r.dados() == db,
            r.recuperadas() == 0,
    {
        Store { path, db, referencias_recuperadas: 0 }
    }

    /// Opens what was read from the file at `path`.
    ///
    /// An array (the old `rtodo` format) and an object without `schema` are
    /// refused, each with its own error, as is a schema other than the current
    /// one and the one before. An accepted envelope becomes the current
    /// generation and every category reference that does not resolve is put
    /// to `None`; the count of those corrections is kept.
    pub fn abrir(path: String, lido: FormaLida) -> (r: Result<Store, StoreError>)
        requires
            lido matches FormaLida::Envelope(db) ==> db.todos@.len() + db.trash@.len() <= u64::MAX,
        ensures
            match lido {
                FormaLida::Array => r == Err::<Store, StoreError>(
                    StoreError::LegacyShape { path },
                ),
                FormaLida::ObjetoSemSchema => r == Err::<Store, StoreError>(
                    StoreError::NotEnveloped { path },
                ),
                FormaLida::Envelope(db) => if schema_aceite(db.schema) {
                    r matches Ok(s) && aberta(path@, db, s)
                } else {
                    r == Err::<Store, StoreError>(
                        StoreError::UnsupportedSchema {
                            path,
                            found: db.schema,
                            expected: SCHEMA_VERSION,
                        },
                    )
                },
            },
    {
        match lido {
            FormaLida::Array => Err(StoreError::LegacyShape { path }),
            FormaLida::ObjetoSemSchema => Err(StoreError::NotEnveloped { path }),
            FormaLida::Envelope(mut db) => {
                if !(db.schema == SCHEMA_VERSION - 1 || db.schema == SCHEMA_VERSION) {
                    return Err(
                        StoreError::UnsupportedSchema {
                            path,
                            found: db.schema,
                            expected: SCHEMA_VERSION,
                        },
                    );
                }
                db.schema = SCHEMA_VERSION;
                let referencias_recuperadas = normalizar_referencias(&mut db);
                Ok(Store { path, db, referencias_recuperadas })
            },
        }
    }

    pub fn path(&self) -> (r: &str)
        ensures
            r@ == self.caminho(),
    {
        self.path.as_str()
    }

    pub fn db(&self) -> (r: &Db)
        ensures
            *r == self.dados(),
    {
        &self.db
    }

    pub fn todos(&self) -> (r: &Vec<Todo>)
        ensures
            r@ == self.dados().todos@,
    {
        &self.db.todos
    }

    pub fn categories(&self) -> (r: &Vec<Category>)
        ensures
            r@ == self.dados().categories@,
    {
        &self.db.categories
    }

    /// How many category references the read that opened this database put to
    /// `None` (list and trash together); zero in the normal case.
    pub fn referencias_recuperadas(&self) -> (r: u64)
        ensures
            r == self.recuperadas(),
    {
        self.referencias_recuperadas
    }

    /// The database, for writing. The path and the count of the read stay.
    pub fn db_mut(&mut self) -> (r: &mut Db)
        ensures
            *r == old(self).dados(),
            final(self).dados() == *final(r),
            final(self).caminho() == old(self).caminho(),
            final(self).recuperadas() == old(self).recuperadas(),
    {
        &mut self.db
    }

    /// Replaces the database in memory (what is written next).
    pub fn save_db(&mut self, db: Db)
        ensures
            final(self).dados() == db,
            final(self).caminho() == old(self).caminho(),
            final(self).recuperadas() == old(self).recuperadas(),
    {
        self.db = db;
    }

    /// Path of the backup file (the previous generation).
    pub fn backup_path(&self) -> (r: String)
        ensures
            r@ == com_sufixo(self.caminho(), "bak"@),
    {
        backup_path_for(self.path.as_str())
    }

    /// Path of the file where the state before a restore is kept
    /// (`db.json.pre-restore`, beside the database).
    pub fn pre_restore_path(&self) -> (r: String)
        ensures
            r@ == atomic::caminho_com_nome(self.caminho(), "db.json.pre-restore"@),
    {
        atomic::com_nome(self.path.as_str(), "db.json.pre-restore")
    }
}

} // verus!
