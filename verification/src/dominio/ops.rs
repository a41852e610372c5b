//! Operations on the database.
//!
//! Every operation refers to a task by its [`TodoId`], never by its position:
//! positions change with every removal. Removing does not delete: the task
//! goes to the trash with the position it had and the batch of the removal,
//! so that undo can put it back where it was.
//!
//! The operations change the database in memory; writing it to disk after a
//! successful operation is the caller's job.

use vstd::prelude::*;

use crate::dominio::model::{Category, CategoryId, Priority, Todo, TodoError, TodoId};
use crate::dominio::store::{categoria_existe, Db, Store, StoreError, Trashed, texto_do_erro};
use crate::dominio::tempo::{agora, instante_valido};
use crate::dominio::texto::{aparado, aparar, minusculas, para_minusculas, iguais};

verus! {

/// Most entries the trash keeps. Past it the oldest leave, and the count of
/// what left is kept in [`Db::trash_dropped`] and returned to the caller.
pub const TRASH_LIMIT: usize = 100;

// ------------------------------------------------------------------ finding

/// `i` is the first position of `s` holding a task with identifier `id`.
pub open spec fn e_primeira(s: Seq<Todo>, id: Seq<char>, i: int) -> bool {
    &&& 0 <= i < s.len()
    &&& s[i].id@ == id
    &&& forall|k: int| 0 <= k < i ==> (#[trigger] s[k]).id@ != id
}

/// Some task of `s` has the identifier `id`.
pub open spec fn tem_id(s: Seq<Todo>, id: Seq<char>) -> bool {
    exists|i: int| 0 <= i < s.len() && (#[trigger] s[i]).id@ == id
}

/// The first position of `s` holding the task `id` (meaningful when
/// `tem_id(s, id)`).
pub open spec fn primeira(s: Seq<Todo>, id: Seq<char>) -> int {
    choose|i: int| e_primeira(s, id, i)
}

pub proof fn lemma_primeira(s: Seq<Todo>, id: Seq<char>, i: int)
    requires
        e_primeira(s, id, i),
    ensures
        primeira(s, id) == i,
        e_primeira(s, id, primeira(s, id)),
{
    let j = primeira(s, id);
    assert(e_primeira(s, id, j));
    if j < i {
        assert(s[j].id@ != id);
    }
    if i < j {
        assert(s[i].id@ != id);
    }
}

proof fn lemma_minimo(s: Seq<Todo>, id: Seq<char>, i: int)
    requires
        0 <= i < s.len(),
        s[i].id@ == id,
    ensures
        exists|j: int| e_primeira(s, id, j),
    decreases i,
{
    if exists|k: int| 0 <= k < i && (#[trigger] s[k]).id@ == id {
        let k = choose|k: int| 0 <= k < i && (#[trigger] s[k]).id@ == id;
        lemma_minimo(s, id, k);
    } else {
        assert(e_primeira(s, id, i));
    }
}

/// A task that is in the list has a first position.
pub proof fn lemma_tem_primeira(s: Seq<Todo>, id: Seq<char>)
    requires
        tem_id(s, id),
    ensures
        e_primeira(s, id, primeira(s, id)),
{
    let i = choose|i: int| 0 <= i < s.len() && (#[trigger] s[i]).id@ == id;
    lemma_minimo(s, id, i);
}

/// The position of the first task `id` in `todos`.
pub fn posicao_de(todos: &Vec<Todo>, id: &TodoId) -> (r: Option<usize>)
    ensures
        match r {
            Some(i) => e_primeira(todos@, id@, i as int) && primeira(todos@, id@) == i,
            None => !tem_id(todos@, id@),
        },
{
    let mut i: usize = 0;
    while i < todos.len()
        invariant
            0 <= i <= todos@.len(),
            forall|k: int| 0 <= k < i ==> (#[trigger] todos@[k]).id@ != id@,
        decreases todos@.len() - i,
    {
        if todos[i].id.igual(id) {
            proof {
                lemma_primeira(todos@, id@, i as int);
            }
            return Some(i);
        }
        i = i + 1;
    }
    None
}

/// `i` is the first entry of the trash holding the task `id`.
pub open spec fn e_primeira_no_lixo(s: Seq<Trashed>, id: Seq<char>, i: int) -> bool {
    &&& 0 <= i < s.len()
    &&& s[i].todo.id@ == id
    &&& forall|k: int| 0 <= k < i ==> (#[trigger] s[k]).todo.id@ != id
}

pub open spec fn no_lixo(s: Seq<Trashed>, id: Seq<char>) -> bool {
    exists|i: int| 0 <= i < s.len() && (#[trigger] s[i]).todo.id@ == id
}

pub open spec fn primeira_no_lixo(s: Seq<Trashed>, id: Seq<char>) -> int {
    choose|i: int| e_primeira_no_lixo(s, id, i)
}

pub proof fn lemma_primeira_no_lixo(s: Seq<Trashed>, id: Seq<char>, i: int)
    requires
        e_primeira_no_lixo(s, id, i),
    ensures
        primeira_no_lixo(s, id) == i,
{
    let j = primeira_no_lixo(s, id);
    assert(e_primeira_no_lixo(s, id, j));
    if j < i {
        assert(s[j].todo.id@ != id);
    }
    if i < j {
        assert(s[i].todo.id@ != id);
    }
}

fn posicao_no_lixo(trash: &Vec<Trashed>, id: &TodoId) -> (r: Option<usize>)
    ensures
        match r {
            Some(i) => e_primeira_no_lixo(trash@, id@, i as int) && primeira_no_lixo(trash@, id@)
                == i,
            None => !no_lixo(trash@, id@),
        },
{
    let mut i: usize = 0;
    while i < trash.len()
        invariant
            0 <= i <= trash@.len(),
            forall|k: int| 0 <= k < i ==> (#[trigger] trash@[k]).todo.id@ != id@,
        decreases trash@.len() - i,
    {
        if trash[i].todo.id.igual(id) {
            proof {
                lemma_primeira_no_lixo(trash@, id@, i as int);
            }
            return Some(i);
        }
        i = i + 1;
    }
    None
}

// -------------------------------------------------------------- the trash

/// The largest batch number in the trash, 0 when it is empty.
pub open spec fn maior_lote(s: Seq<Trashed>) -> nat
    decreases s.len(),
{
    if s.len() == 0 {
        0
    } else {
        let m = maior_lote(s.drop_last());
        if s.last().batch > m {
            s.last().batch as nat
        } else {
            m
        }
    }
}

pub proof fn lemma_maior_lote(s: Seq<Trashed>)
    ensures
        forall|i: int| 0 <= i < s.len() ==> (#[trigger] s[i]).batch <= maior_lote(s),
        s.len() > 0 ==> exists|i: int| 0 <= i < s.len() && (#[trigger] s[i]).batch == maior_lote(s),
    decreases s.len(),
{
    if s.len() > 0 {
        lemma_maior_lote(s.drop_last());
        assert forall|i: int| 0 <= i < s.len() implies (#[trigger] s[i]).batch <= maior_lote(s) by {
            if i < s.len() - 1 {
                assert(s.drop_last()[i] == s[i]);
            }
        }
        if s.last().batch > maior_lote(s.drop_last()) || s.len() == 1 {
            assert(s[s.len() - 1].batch == maior_lote(s));
        } else {
            let i = choose|i: int|
                0 <= i < s.drop_last().len() && (#[trigger] s.drop_last()[i]).batch == maior_lote(
                    s.drop_last(),
                );
            assert(s[i].batch == maior_lote(s));
        }
    }
}

/// The number of the next removal batch: one past the largest in the trash.
/// Derived from the trash rather than kept as a counter, because a batch only
/// matters while its entries exist.
fn proximo_lote(trash: &Vec<Trashed>) -> (r: u64)
    requires
        maior_lote(trash@) < u64::MAX,
    ensures
        r == maior_lote(trash@) + 1,
{
    let mut m: u64 = 0;
    let mut i: usize = 0;
    while i < trash.len()
        invariant
            0 <= i <= trash@.len(),
            m == maior_lote(trash@.subrange(0, i as int)),
        decreases trash@.len() - i,
    {
        assert(trash@.subrange(0, i + 1).drop_last() =~= trash@.subrange(0, i as int));
        if trash[i].batch > m {
            m = trash[i].batch;
        }
        i = i + 1;
    }
    assert(trash@.subrange(0, trash@.len() as int) =~= trash@);
    m + 1
}

impl Store {
    /// Whether one more removal batch can be numbered: the largest batch in
    /// the trash is below the largest number.
    pub fn cabe_outro_lote(&self) -> (r: bool)
        ensures
            r == (maior_lote(self.dados().trash@) < u64::MAX),
    {
        let trash = &self.db().trash;
        let mut m: u64 = 0;
        let mut i: usize = 0;
        while i < trash.len()
            invariant
                0 <= i <= trash@.len(),
                trash@ == self.dados().trash@,
                m == maior_lote(trash@.subrange(0, i as int)),
            decreases trash@.len() - i,
        {
            assert(trash@.subrange(0, i + 1).drop_last() =~= trash@.subrange(0, i as int));
            if trash[i].batch > m {
                m = trash[i].batch;
            }
            i = i + 1;
        }
        assert(trash@.subrange(0, trash@.len() as int) =~= trash@);
        m < u64::MAX
    }
}

/// The trash after the limit: the newest `TRASH_LIMIT` entries.
pub open spec fn aparar_lixo(s: Seq<Trashed>) -> Seq<Trashed> {
    if s.len() <= TRASH_LIMIT {
        s
    } else {
        s.subrange(s.len() - TRASH_LIMIT, s.len() as int)
    }
}

/// How many entries the limit takes out of `s`.
pub open spec fn saidas_do_lixo(s: Seq<Trashed>) -> nat {
    if s.len() <= TRASH_LIMIT {
        0
    } else {
        (s.len() - TRASH_LIMIT) as nat
    }
}

/// Applies the trash limit and returns how many entries left: always the
/// oldest ones (the front of the list, which is in order of removal), with
/// the count added to `trash_dropped`.
pub fn trim_trash(db: &mut Db) -> (r: usize)
    ensures
        r == saidas_do_lixo(old(db).trash@),
        final(db).trash@ == aparar_lixo(old(db).trash@),
        final(db).trash_dropped == (if old(db).trash_dropped + r > u64::MAX {
            u64::MAX as int
        } else {
            old(db).trash_dropped + r
        }),
        final(db).todos == old(db).todos,
        final(db).categories == old(db).categories,
        final(db).schema == old(db).schema,
{
    let n = db.trash.len();
    if n <= TRASH_LIMIT {
        return 0;
    }
    let saidas = n - TRASH_LIMIT;
    let mut resto: Vec<Trashed> = Vec::new();
    let mut velho: Vec<Trashed> = Vec::new();
    std::mem::swap(&mut velho, &mut db.trash);
    let ghost v0 = velho@;
    let mut i: usize = n;
    while i > saidas
        invariant
            saidas <= i <= n,
            velho@ == v0.subrange(0, i as int),
            resto@ == v0.subrange(i as int, n as int),
            v0.len() == n,
        decreases i,
    {
        let e = velho.pop().unwrap();
        resto.insert(0, e);
        i = i - 1;
        assert(resto@ =~= v0.subrange(i as int, n as int));
        assert(velho@ =~= v0.subrange(0, i as int));
    }
    db.trash = resto;
    db.trash_dropped = db.trash_dropped.saturating_add(saidas as u64);
    saidas
}

// ------------------------------------------------------------- the errors

/// Errors of the operations.
#[derive(Debug, Clone, PartialEq, Eq)]
pub enum OpsError {
    /// The `id` does not exist (the view was stale, or the task was already
    /// removed).
    NotFound(TodoId),
    EmptyTitle,
    /// No category has this `id`.
    CategoryNotFound(CategoryId),
    /// Category name empty after trimming.
    EmptyName,
    /// A category with this name already exists (case-insensitive); carries
    /// the name that exists.
    DuplicateName(String),
    /// Nothing in the trash to put back.
    NothingToRestore,
    Persist(StoreError),
}

/// The text of an error of the operations, as shown to the user.
pub open spec fn texto_do_erro_de_operacao(e: OpsError) -> Seq<char> {
    match e {
        OpsError::NotFound(id) => "não existe nenhuma tarefa com o id "@ + id@,
        OpsError::EmptyTitle => "o título não pode estar vazio"@,
        OpsError::CategoryNotFound(id) => "não existe nenhuma categoria com o id "@ + id@,
        OpsError::EmptyName => "o nome da categoria não pode estar vazio"@,
        OpsError::DuplicateName(nome) => "já existe uma categoria com o nome «"@ + nome@ + "»"@,
        OpsError::NothingToRestore => "não há nada no lixo para restaurar"@,
        OpsError::Persist(e) => texto_do_erro(e),
    }
}

impl OpsError {
    /// The message shown to the user.
    pub fn mensagem(&self) -> (r: String)
        ensures
            r@ == texto_do_erro_de_operacao(*self),
    {
        let mut s = String::new();
        match self {
            OpsError::NotFound(id) => {
                s.append("não existe nenhuma tarefa com o id ");
                s.append(id.as_str());
            },
            OpsError::EmptyTitle => {
                s.append("o título não pode estar vazio");
            },
            OpsError::CategoryNotFound(id) => {
                s.append("não existe nenhuma categoria com o id ");
                s.append(id.as_str());
            },
            OpsError::EmptyName => {
                s.append("o nome da categoria não pode estar vazio");
            },
            OpsError::DuplicateName(nome) => {
                s.append("já existe uma categoria com o nome «");
                s.append(nome.as_str());
                s.append("»");
            },
            OpsError::NothingToRestore => {
                s.append("não há nada no lixo para restaurar");
            },
            OpsError::Persist(e) => {
                s = e.mensagem();
            },
        }
        assert(s@ =~= texto_do_erro_de_operacao(*self));
        s
    }
}

/// What clearing the completed tasks did.
#[derive(Debug, Clone, Copy, PartialEq, Eq, Structural)]
pub struct ClearOutcome {
    /// Tasks that went to the trash (and are still there).
    pub removidos: usize,
    /// Old entries that left the trash because the limit was reached.
    pub saidas_do_lixo: usize,
}

/// The database with only the list of tasks changed.
pub open spec fn com_tarefas(db: Db, todos: Seq<Todo>) -> bool {
    db.todos@ == todos
}

/// Everything but the list of tasks is as in `antes`.
pub open spec fn resto_igual(antes: Db, depois: Db) -> bool {
    &&& depois.schema == antes.schema
    &&& depois.trash == antes.trash
    &&& depois.trash_dropped == antes.trash_dropped
    &&& depois.categories == antes.categories
}

/// The next priority in the cycle low → medium → high → low.
pub open spec fn seguinte(p: Priority) -> Priority {
    match p {
        Priority::Low => Priority::Medium,
        Priority::Medium => Priority::High,
        Priority::High => Priority::Low,
    }
}

/// The store after an operation that failed: nothing changed.
pub open spec fn intacta(antes: Store, depois: Store) -> bool {
    &&& depois.dados() == antes.dados()
    &&& depois.caminho() == antes.caminho()
    &&& depois.recuperadas() == antes.recuperadas()
}

/// The store after the task at position `i` became `t`: the rest is as before.
pub open spec fn tarefa_trocada(antes: Store, depois: Store, i: int, t: Todo) -> bool {
    &&& depois.dados().todos@ == antes.dados().todos@.update(i, t)
    &&& resto_igual(antes.dados(), depois.dados())
    &&& depois.caminho() == antes.caminho()
    &&& depois.recuperadas() == antes.recuperadas()
}

impl Store {
    /// Position of the task, if it exists. For display only: operations never
    /// store it.
    pub fn position(&self, id: &TodoId) -> (r: Option<usize>)
        ensures
            match r {
                Some(i) => e_primeira(self.dados().todos@, id@, i as int),
                None => !tem_id(self.dados().todos@, id@),
            },
    {
        posicao_de(self.todos(), id)
    }

    pub fn find(&self, id: &TodoId) -> (r: Option<&Todo>)
        ensures
            match r {
                Some(t) => tem_id(self.dados().todos@, id@) && *t == self.dados().todos@[primeira(
                    self.dados().todos@,
                    id@,
                )],
                None => !tem_id(self.dados().todos@, id@),
            },
    {
        match posicao_de(self.todos(), id) {
            Some(i) => Some(&self.todos()[i]),
            None => None,
        }
    }

    /// Puts `t` at position `i` of the list.
    fn trocar_tarefa(&mut self, i: usize, t: Todo)
        requires
            i < old(self).dados().todos@.len(),
        ensures
            tarefa_trocada(*old(self), *final(self), i as int, t),
    {
        let db = self.db_mut();
        db.todos.set(i, t);
    }

    /// Creates a task from the title (trimmed) and appends it to the list.
    /// An empty title is refused and nothing changes.
    pub fn add(&mut self, title: &str) -> (r: Result<TodoId, OpsError>)
        ensures
            aparado(title@).len() == 0 <==> r is Err,
            r matches Err(e) ==> e == OpsError::EmptyTitle && intacta(*old(self), *final(self)),
            r matches Ok(id) ==> {
                let todos = final(self).dados().todos@;
                let t = todos.last();
                &&& todos.len() == old(self).dados().todos@.len() + 1
                &&& todos.drop_last() == old(self).dados().todos@
                &&& t.id@ == id@
                &&& id@.len() == 36
                &&& t.title@ == aparado(title@)
                &&& t.description@.len() == 0
                &&& !t.done
                &&& t.priority == Priority::Medium
                &&& t.completed_at is None
                &&& t.due_at is None
                &&& t.category_id is None
                &&& resto_igual(old(self).dados(), final(self).dados())
                &&& final(self).caminho() == old(self).caminho()
                &&& final(self).recuperadas() == old(self).recuperadas()
            },
    {
        match Todo::try_new(title) {
            Ok(todo) => self.insert(todo),
            Err(TodoError::EmptyTitle) => Err(OpsError::EmptyTitle),
        }
    }

    /// Appends a task already built (import, tests).
    pub fn insert(&mut self, todo: Todo) -> (r: Result<TodoId, OpsError>)
        ensures
            r matches Ok(id) && id == todo.id,
            final(self).dados().todos@ == old(self).dados().todos@.push(todo),
            resto_igual(old(self).dados(), final(self).dados()),
            final(self).caminho() == old(self).caminho(),
            final(self).recuperadas() == old(self).recuperadas(),
    {
        let id = todo.id.copia();
        let db = self.db_mut();
        db.todos.push(todo);
        Ok(id)
    }

    /// Changes the title of the task `id` to `title` trimmed. An empty title
    /// is refused before anything else; an unknown `id` is an error; in both
    /// cases nothing changes.
    pub fn edit_title(&mut self, id: &TodoId, title: &str) -> (r: Result<(), OpsError>)
        ensures
            aparado(title@).len() == 0 ==> r == Err::<(), OpsError>(OpsError::EmptyTitle),
            aparado(title@).len() > 0 && !tem_id(old(self).dados().todos@, id@) ==> r == Err::<
                (),
                OpsError,
            >(OpsError::NotFound(*id)),
            r is Err ==> intacta(*old(self), *final(self)),
            r is Ok <==> aparado(title@).len() > 0 && tem_id(old(self).dados().todos@, id@),
            r is Ok ==> {
                let i = primeira(old(self).dados().todos@, id@);
                let antes = old(self).dados().todos@[i];
                let depois = final(self).dados().todos@[i];
                &&& depois.title@ == aparado(title@)
                &&& tarefa_trocada(*old(self), *final(self), i, Todo { title: depois.title, ..antes })
            },
    {
        let title = aparar(title);
        if title.as_str().is_empty() {
            return Err(OpsError::EmptyTitle);
        }
        match posicao_de(self.todos(), id) {
            None => Err(OpsError::NotFound(id.copia())),
            Some(i) => {
                let mut t = self.todos()[i].copia();
                t.title = title;
                self.trocar_tarefa(i, t);
                Ok(())
            },
        }
    }

    /// Changes the description of the task `id`.
    pub fn edit_description(&mut self, id: &TodoId, description: &str) -> (r: Result<
        (),
        OpsError,
    >)
        ensures
            !tem_id(old(self).dados().todos@, id@) ==> r == Err::<(), OpsError>(
                OpsError::NotFound(*id),
            ) && intacta(*old(self), *final(self)),
            tem_id(old(self).dados().todos@, id@) ==> r is Ok && {
                let i = primeira(old(self).dados().todos@, id@);
                let antes = old(self).dados().todos@[i];
                let depois = final(self).dados().todos@[i];
                &&& depois.description@ == description@
                &&& tarefa_trocada(
                    *old(self),
                    *final(self),
                    i,
                    Todo { description: depois.description, ..antes },
                )
            },
    {
        match posicao_de(self.todos(), id) {
            None => Err(OpsError::NotFound(id.copia())),
            Some(i) => {
                let mut t = self.todos()[i].copia();
                t.description = description.to_owned();
                self.trocar_tarefa(i, t);
                Ok(())
            },
        }
    }

    pub fn set_priority(&mut self, id: &TodoId, priority: Priority) -> (r: Result<(), OpsError>)
        ensures
            !tem_id(old(self).dados().todos@, id@) ==> r == Err::<(), OpsError>(
                OpsError::NotFound(*id),
            ) && intacta(*old(self), *final(self)),
            tem_id(old(self).dados().todos@, id@) ==> r is Ok && {
                let i = primeira(old(self).dados().todos@, id@);
                tarefa_trocada(
                    *old(self),
                    *final(self),
                    i,
                    Todo { priority, ..old(self).dados().todos@[i] },
                )
            },
    {
        match posicao_de(self.todos(), id) {
            None => Err(OpsError::NotFound(id.copia())),
            Some(i) => {
                let mut t = self.todos()[i].copia();
                t.priority = priority;
                self.trocar_tarefa(i, t);
                Ok(())
            },
        }
    }

    /// Moves the priority of the task `id` one step along the cycle
    /// low → medium → high → low and returns the new one.
    pub fn cycle_priority(&mut self, id: &TodoId) -> (r: Result<Priority, OpsError>)
        ensures
            !tem_id(old(self).dados().todos@, id@) ==> r == Err::<Priority, OpsError>(
                OpsError::NotFound(*id),
            ) && intacta(*old(self), *final(self)),
            tem_id(old(self).dados().todos@, id@) ==> {
                let i = primeira(old(self).dados().todos@, id@);
                let antes = old(self).dados().todos@[i];
                &&& r == Ok::<Priority, OpsError>(seguinte(antes.priority))
                &&& tarefa_trocada(
                    *old(self),
                    *final(self),
                    i,
                    Todo { priority: seguinte(antes.priority), ..antes },
                )
            },
    {
        match posicao_de(self.todos(), id) {
            None => Err(OpsError::NotFound(id.copia())),
            Some(i) => {
                let proxima = match self.todos()[i].priority {
                    Priority::Low => Priority::Medium,
                    Priority::Medium => Priority::High,
                    Priority::High => Priority::Low,
                };
                let mut t = self.todos()[i].copia();
                t.priority = proxima;
                self.trocar_tarefa(i, t);
                Ok(proxima)
            },
        }
    }

    /// Marks the task `id` as done or not done (see [`Todo::set_done`]) and
    /// returns `done`.
    pub fn set_done(&mut self, id: &TodoId, done: bool) -> (r: Result<bool, OpsError>)
        ensures
            !tem_id(old(self).dados().todos@, id@) ==> r == Err::<bool, OpsError>(
                OpsError::NotFound(*id),
            ) && intacta(*old(self), *final(self)),
            tem_id(old(self).dados().todos@, id@) ==> {
                let i = primeira(old(self).dados().todos@, id@);
                let antes = old(self).dados().todos@[i];
                &&& r == Ok::<bool, OpsError>(done)
                &&& done == antes.done ==> tarefa_trocada(*old(self), *final(self), i, antes)
                &&& done != antes.done ==> {
                    let quando = final(self).dados().todos@[i].completed_at;
                    &&& quando is Some == done
                    &&& tarefa_trocada(
                        *old(self),
                        *final(self),
                        i,
                        Todo { done, completed_at: quando, ..antes },
                    )
                }
            },
    {
        match posicao_de(self.todos(), id) {
            None => Err(OpsError::NotFound(id.copia())),
            Some(i) => {
                let mut t = self.todos()[i].copia();
                t.set_done(done);
                self.trocar_tarefa(i, t);
                Ok(done)
            },
        }
    }

    /// Flips the done state of the task `id` and returns the new state.
    pub fn toggle_done(&mut self, id: &TodoId) -> (r: Result<bool, OpsError>)
        ensures
            !tem_id(old(self).dados().todos@, id@) ==> r == Err::<bool, OpsError>(
                OpsError::NotFound(*id),
            ) && intacta(*old(self), *final(self)),
            tem_id(old(self).dados().todos@, id@) ==> {
                let i = primeira(old(self).dados().todos@, id@);
                let antes = old(self).dados().todos@[i];
                &&& r == Ok::<bool, OpsError>(!antes.done)
                &&& final(self).dados().todos@[i].completed_at is Some == !antes.done
                &&& tarefa_trocada(
                    *old(self),
                    *final(self),
                    i,
                    Todo {
                        done: !antes.done,
                        completed_at: final(self).dados().todos@[i].completed_at,
                        ..antes
                    },
                )
            },
    {
        match posicao_de(self.todos(), id) {
            None => Err(OpsError::NotFound(id.copia())),
            Some(i) => {
                let actual = self.todos()[i].is_done();
                self.set_done(id, !actual)
            },
        }
    }
}

// ------------------------------------------------- removal and restoring

/// The trash after `novos` were added to `trash` and the limit applied.
pub open spec fn lixo_depois(trash: Seq<Trashed>, novos: Seq<Trashed>) -> Seq<Trashed> {
    aparar_lixo(trash + novos)
}

/// `trash_dropped` after `saidas` more entries left the trash (saturating).
pub open spec fn contagem_depois(antes: u64, saidas: nat) -> u64 {
    if antes + saidas > u64::MAX {
        u64::MAX
    } else {
        (antes + saidas) as u64
    }
}

/// What `remove(id)` does to the database `antes` when the task exists at
/// position `i`: the task leaves the list and goes to the end of the trash,
/// with its position and a fresh batch, and the limit is applied.
pub open spec fn efeito_remove(antes: Db, id: Seq<char>, depois: Db, saidas: nat) -> bool {
    let i = primeira(antes.todos@, id);
    let e = depois.trash@.last();
    &&& tem_id(antes.todos@, id)
    &&& e.todo == antes.todos@[i]
    &&& e.index == i
    &&& e.batch == maior_lote(antes.trash@) + 1
    &&& instante_valido(e.deleted_at)
    &&& depois.todos@ == antes.todos@.remove(i)
    &&& depois.trash@ == lixo_depois(antes.trash@, seq![e])
    &&& saidas == saidas_do_lixo(antes.trash@.push(e))
    &&& depois.trash_dropped == contagem_depois(antes.trash_dropped, saidas)
    &&& depois.categories == antes.categories
    &&& depois.schema == antes.schema
}

/// What `restore(id)` does when the trash holds the task `id`: its first
/// entry leaves the trash and the task goes back to the position it had,
/// limited to the current length of the list.
pub open spec fn efeito_restore(antes: Db, id: Seq<char>, depois: Db, posicao: nat) -> bool {
    let k = primeira_no_lixo(antes.trash@, id);
    let e = antes.trash@[k];
    &&& no_lixo(antes.trash@, id)
    &&& posicao == (if e.index <= antes.todos@.len() {
        e.index as nat
    } else {
        antes.todos@.len()
    })
    &&& depois.todos@ == antes.todos@.insert(posicao as int, e.todo)
    &&& depois.trash@ == antes.trash@.remove(k)
    &&& depois.trash_dropped == antes.trash_dropped
    &&& depois.categories == antes.categories
    &&& depois.schema == antes.schema
}

/// The same store, with only the database changed.
pub open spec fn so_dados(antes: Store, depois: Store) -> bool {
    &&& depois.caminho() == antes.caminho()
    &&& depois.recuperadas() == antes.recuperadas()
}

proof fn lemma_ultimo_apos_aparar(s: Seq<Trashed>)
    requires
        s.len() > 0,
    ensures
        aparar_lixo(s).len() > 0,
        aparar_lixo(s).last() == s.last(),
{
}

impl Store {
    /// Moves the task `id` to the trash, keeping the position it had and the
    /// batch of this removal, and returns how many old entries left the trash
    /// because of the limit (0 in the normal case).
    pub fn remove(&mut self, id: &TodoId) -> (r: Result<usize, OpsError>)
        requires
            maior_lote(old(self).dados().trash@) < u64::MAX,
        ensures
            !tem_id(old(self).dados().todos@, id@) ==> r == Err::<usize, OpsError>(
                OpsError::NotFound(*id),
            ) && intacta(*old(self), *final(self)),
            tem_id(old(self).dados().todos@, id@) ==> (r matches Ok(saidas) && efeito_remove(
                old(self).dados(),
                id@,
                final(self).dados(),
                saidas as nat,
            )),
            so_dados(*old(self), *final(self)),
    {
        let index = match posicao_de(self.todos(), id) {
            None => return Err(OpsError::NotFound(id.copia())),
            Some(i) => i,
        };
        let batch = proximo_lote(&self.db().trash);
        let ghost antes = self.dados();
        let db = self.db_mut();
        let todo = db.todos.remove(index);
        let e = Trashed { todo, index, deleted_at: agora(), batch };
        let ghost eg = e;
        db.trash.push(e);
        assert(db.trash@ == antes.trash@ + seq![eg]);
        let saidas = trim_trash(db);
        proof {
            lemma_ultimo_apos_aparar(antes.trash@.push(eg));
            assert(antes.trash@ + seq![eg] == antes.trash@.push(eg));
        }
        Ok(saidas)
    }

    /// Number of entries in the trash.
    pub fn trash_len(&self) -> (r: usize)
        ensures
            r == self.dados().trash@.len(),
    {
        self.db().trash.len()
    }

    /// Whether the tasks of the list and the entries of the trash, together,
    /// can be counted in a `usize`.
    pub fn contagem_cabe(&self) -> (r: bool)
        ensures
            r == (self.dados().todos@.len() + self.dados().trash@.len() <= usize::MAX),
    {
        self.todos().len() <= usize::MAX - self.db().trash.len()
    }

    /// Is there anything to put back?
    pub fn can_restore(&self) -> (r: bool)
        ensures
            r == (self.dados().trash@.len() > 0),
    {
        self.db().trash.len() > 0
    }

    /// Empties the trash and returns how many entries left. The list and
    /// `trash_dropped` (the count of what the limit threw away) stay.
    pub fn empty_trash(&mut self) -> (r: Result<usize, OpsError>)
        ensures
            r == Ok::<usize, OpsError>(old(self).dados().trash@.len() as usize),
            final(self).dados().trash@.len() == 0,
            final(self).dados().todos == old(self).dados().todos,
            final(self).dados().trash_dropped == old(self).dados().trash_dropped,
            final(self).dados().categories == old(self).dados().categories,
            final(self).dados().schema == old(self).dados().schema,
            old(self).dados().trash@.len() == 0 ==> intacta(*old(self), *final(self)),
            so_dados(*old(self), *final(self)),
    {
        let entradas = self.db().trash.len();
        if entradas == 0 {
            return Ok(0);
        }
        let db = self.db_mut();
        db.trash.clear();
        Ok(entradas)
    }

    /// Puts the task `id` back from the trash at the position it had (limited
    /// to the current length of the list) and returns where it went. Other
    /// entries of its batch stay in the trash. An `id` that is not in the
    /// trash is an error and nothing changes.
    pub fn restore(&mut self, id: &TodoId) -> (r: Result<usize, OpsError>)
        ensures
            !no_lixo(old(self).dados().trash@, id@) ==> r == Err::<usize, OpsError>(
                OpsError::NotFound(*id),
            ) && intacta(*old(self), *final(self)),
            no_lixo(old(self).dados().trash@, id@) ==> (r matches Ok(p) && efeito_restore(
                old(self).dados(),
                id@,
                final(self).dados(),
                p as nat,
            )),
            so_dados(*old(self), *final(self)),
    {
        let k = match posicao_no_lixo(&self.db().trash, id) {
            None => return Err(OpsError::NotFound(id.copia())),
            Some(k) => k,
        };
        let db = self.db_mut();
        let entrada = db.trash.remove(k);
        let posicao = if entrada.index <= db.todos.len() {
            entrada.index
        } else {
            db.todos.len()
        };
        db.todos.insert(posicao, entrada.todo);
        Ok(posicao)
    }
}

// ------------------------------------------------------ batches of removal

/// The tasks of `s` that are not done, in order.
pub open spec fn pendentes_de(s: Seq<Todo>) -> Seq<Todo>
    decreases s.len(),
{
    if s.len() == 0 {
        s
    } else if s.last().done {
        pendentes_de(s.drop_last())
    } else {
        pendentes_de(s.drop_last()).push(s.last())
    }
}

/// The positions of the done tasks of `s`, in ascending order.
pub open spec fn indices_concluidas(s: Seq<Todo>) -> Seq<int>
    decreases s.len(),
{
    if s.len() == 0 {
        seq![]
    } else if s.last().done {
        indices_concluidas(s.drop_last()).push(s.len() - 1)
    } else {
        indices_concluidas(s.drop_last())
    }
}

pub proof fn lemma_indices_concluidas(s: Seq<Todo>)
    ensures
        forall|j: int|
            0 <= j < indices_concluidas(s).len() ==> 0 <= #[trigger] indices_concluidas(s)[j]
                < s.len() && s[indices_concluidas(s)[j]].done,
        forall|j: int, k: int|
            0 <= j < k < indices_concluidas(s).len() ==> #[trigger] indices_concluidas(s)[j]
                < #[trigger] indices_concluidas(s)[k],
    decreases s.len(),
{
    if s.len() > 0 {
        lemma_indices_concluidas(s.drop_last());
        let a = indices_concluidas(s.drop_last());
        assert forall|j: int| 0 <= j < a.len() implies s[a[j]] == s.drop_last()[a[j]] by {}
    }
}

/// `novos` are the trash entries of clearing the completed tasks of `s` in
/// batch `b`: one per done task, from the last position to the first, each
/// with the position the task had.
pub open spec fn lote_de_concluidas(s: Seq<Todo>, novos: Seq<Trashed>, b: nat) -> bool {
    let a = indices_concluidas(s);
    let m = a.len();
    &&& novos.len() == m
    &&& forall|k: int|
        0 <= k < m ==> {
            &&& (#[trigger] novos[k]).index == a[m - 1 - k]
            &&& novos[k].todo == s[a[m - 1 - k]]
            &&& novos[k].batch == b
            &&& instante_valido(novos[k].deleted_at)
        }
}

/// How many entries of `s` belong to batch `b`.
pub open spec fn conta_lote(s: Seq<Trashed>, b: nat) -> nat
    decreases s.len(),
{
    if s.len() == 0 {
        0
    } else {
        conta_lote(s.drop_last(), b) + if s.last().batch == b {
            1nat
        } else {
            0nat
        }
    }
}

/// What `clear_completed` does to `antes` when some task is done: the done
/// tasks leave the list, in one new batch, and the limit is applied.
pub open spec fn efeito_clear_completed(antes: Db, depois: Db, novos: Seq<Trashed>, r: ClearOutcome) -> bool {
    let b = maior_lote(antes.trash@) + 1;
    &&& lote_de_concluidas(antes.todos@, novos, b)
    &&& depois.todos@ == pendentes_de(antes.todos@)
    &&& depois.trash@ == lixo_depois(antes.trash@, novos)
    &&& r.saidas_do_lixo == saidas_do_lixo(antes.trash@ + novos)
    &&& r.removidos == conta_lote(depois.trash@, b)
    &&& depois.trash_dropped == contagem_depois(antes.trash_dropped, r.saidas_do_lixo as nat)
    &&& depois.categories == antes.categories
    &&& depois.schema == antes.schema
}

fn contar_lote(s: &Vec<Trashed>, b: u64) -> (r: usize)
    ensures
        r == conta_lote(s@, b as nat),
{
    let mut c: usize = 0;
    let mut i: usize = 0;
    while i < s.len()
        invariant
            0 <= i <= s@.len(),
            c == conta_lote(s@.subrange(0, i as int), b as nat),
            c <= i,
        decreases s@.len() - i,
    {
        assert(s@.subrange(0, i + 1).drop_last() =~= s@.subrange(0, i as int));
        if s[i].batch == b {
            c = c + 1;
        }
        i = i + 1;
    }
    assert(s@.subrange(0, s@.len() as int) =~= s@);
    c
}

impl Store {
    /// Moves every completed task to the trash in a single batch, so that
    /// one undo puts them all back. With no completed task nothing changes
    /// and no batch is made.
    pub fn clear_completed(&mut self) -> (r: Result<ClearOutcome, OpsError>)
        requires
            maior_lote(old(self).dados().trash@) < u64::MAX,
        ensures
            indices_concluidas(old(self).dados().todos@).len() == 0 ==> r == Ok::<
                ClearOutcome,
                OpsError,
            >(ClearOutcome { removidos: 0, saidas_do_lixo: 0 }) && intacta(*old(self), *final(self)),
            indices_concluidas(old(self).dados().todos@).len() > 0 ==> (r matches Ok(c) && exists|
                novos: Seq<Trashed>,
            |
                #[trigger] lote_de_concluidas(
                    old(self).dados().todos@,
                    novos,
                    maior_lote(old(self).dados().trash@) + 1,
                ) && efeito_clear_completed(old(self).dados(), final(self).dados(), novos, c)),
            so_dados(*old(self), *final(self)),
    {
        let batch = proximo_lote(&self.db().trash);
        let ghost antes = self.dados();
        let ghost todos0 = antes.todos@;
        let n = self.todos().len();
        let mut restantes: Vec<Todo> = Vec::new();
        let mut feitas: Vec<Todo> = Vec::new();
        let mut indices: Vec<usize> = Vec::new();
        let mut i: usize = 0;
        while i < n
            invariant
                0 <= i <= n,
                n == todos0.len(),
                self.dados() == antes,
                todos0 == antes.todos@,
                restantes@ == pendentes_de(todos0.subrange(0, i as int)),
                indices@.len() == indices_concluidas(todos0.subrange(0, i as int)).len(),
                feitas@.len() == indices@.len(),
                forall|j: int|
                    0 <= j < indices@.len() ==> (#[trigger] indices@[j]) as int
                        == indices_concluidas(todos0.subrange(0, i as int))[j] && feitas@[j]
                        == todos0[indices@[j] as int],
            decreases n - i,
        {
            let ghost pre = todos0.subrange(0, i as int);
            let ghost pos = todos0.subrange(0, i + 1);
            assert(pos.drop_last() =~= pre);
            proof {
                lemma_indices_concluidas(pre);
            }
            let t = self.todos()[i].copia();
            if t.done {
                indices.push(i);
                feitas.push(t);
            } else {
                restantes.push(t);
            }
            i = i + 1;
        }
        assert(todos0.subrange(0, n as int) =~= todos0);
        let m = indices.len();
        if m == 0 {
            return Ok(ClearOutcome { removidos: 0, saidas_do_lixo: 0 });
        }
        let ghost a = indices_concluidas(todos0);
        proof {
            lemma_indices_concluidas(todos0);
        }
        let db = self.db_mut();
        db.todos = restantes;
        let ghost mut novos: Seq<Trashed> = seq![];
        let mut k: usize = m;
        while k > 0
            invariant
                0 <= k <= m,
                m == indices@.len(),
                m == a.len(),
                feitas@.len() == m,
                forall|j: int|
                    0 <= j < m ==> (#[trigger] indices@[j]) as int == a[j] && feitas@[j]
                        == todos0[indices@[j] as int],
                db.trash@ == antes.trash@ + novos,
                novos.len() == m - k,
                forall|j: int|
                    0 <= j < novos.len() ==> {
                        &&& (#[trigger] novos[j]).index == a[m - 1 - j]
                        &&& novos[j].todo == todos0[a[m - 1 - j]]
                        &&& novos[j].batch == batch
                        &&& instante_valido(novos[j].deleted_at)
                    },
                db.todos@ == pendentes_de(todos0),
                db.trash_dropped == antes.trash_dropped,
                db.categories == antes.categories,
                db.schema == antes.schema,
            decreases k,
        {
            k = k - 1;
            let e = Trashed {
                todo: feitas[k].copia(),
                index: indices[k],
                deleted_at: agora(),
                batch,
            };
            proof {
                novos = novos.push(e);
            }
            db.trash.push(e);
            assert(db.trash@ =~= antes.trash@ + novos);
        }
        assert(lote_de_concluidas(todos0, novos, batch as nat));
        let saidas = trim_trash(db);
        let removidos = contar_lote(&db.trash, batch);
        Ok(ClearOutcome { removidos, saidas_do_lixo: saidas })
    }
}

/// The entries of `s` in batch `b`, in trash order.
pub open spec fn do_lote(s: Seq<Trashed>, b: nat) -> Seq<Trashed>
    decreases s.len(),
{
    if s.len() == 0 {
        s
    } else if s.last().batch == b {
        do_lote(s.drop_last(), b).push(s.last())
    } else {
        do_lote(s.drop_last(), b)
    }
}

/// The entries of `s` outside batch `b`, in trash order.
pub open spec fn fora_do_lote(s: Seq<Trashed>, b: nat) -> Seq<Trashed>
    decreases s.len(),
{
    if s.len() == 0 {
        s
    } else if s.last().batch == b {
        fora_do_lote(s.drop_last(), b)
    } else {
        fora_do_lote(s.drop_last(), b).push(s.last())
    }
}

/// Where an entry with position `k` goes in `s`: after the last entry whose
/// position is not greater than `k`.
pub open spec fn posicao_apos(s: Seq<Trashed>, k: usize) -> int
    decreases s.len(),
{
    if s.len() == 0 {
        0
    } else if s.last().index > k {
        posicao_apos(s.drop_last(), k)
    } else {
        s.len() as int
    }
}

/// `s` with `x` inserted after every entry with a position not greater
/// than its own.
pub open spec fn inserir_ordenado(s: Seq<Trashed>, x: Trashed) -> Seq<Trashed> {
    s.insert(posicao_apos(s, x.index), x)
}

/// `s` sorted by position, keeping the order of entries with equal positions
/// (`sort_by_key` on the position, which is stable).
pub open spec fn ordenar(s: Seq<Trashed>) -> Seq<Trashed>
    decreases s.len(),
{
    if s.len() == 0 {
        s
    } else {
        inserir_ordenado(ordenar(s.drop_last()), s.last())
    }
}

/// `base` after putting back, one after the other, the tasks of `lote`, each
/// at its position limited to the current length of the list.
pub open spec fn reinserir(base: Seq<Todo>, lote: Seq<Trashed>) -> Seq<Todo>
    decreases lote.len(),
{
    if lote.len() == 0 {
        base
    } else {
        let b = reinserir(base, lote.drop_last());
        let e = lote.last();
        b.insert(if e.index <= b.len() { e.index as int } else { b.len() as int }, e.todo)
    }
}

pub proof fn lemma_posicao_apos(s: Seq<Trashed>, k: usize)
    ensures
        0 <= posicao_apos(s, k) <= s.len(),
    decreases s.len(),
{
    if s.len() > 0 {
        lemma_posicao_apos(s.drop_last(), k);
    }
}

pub proof fn lemma_ordenar_len(s: Seq<Trashed>)
    ensures
        ordenar(s).len() == s.len(),
    decreases s.len(),
{
    if s.len() > 0 {
        lemma_ordenar_len(s.drop_last());
        lemma_posicao_apos(ordenar(s.drop_last()), s.last().index);
    }
}

pub proof fn lemma_reinserir_len(base: Seq<Todo>, lote: Seq<Trashed>)
    ensures
        reinserir(base, lote).len() == base.len() + lote.len(),
    decreases lote.len(),
{
    if lote.len() > 0 {
        lemma_reinserir_len(base, lote.drop_last());
    }
}

/// With every entry of `s` from `p` on past position `k`, the place of `k`
/// is decided by the first `p` entries.
proof fn lemma_posicao_apos_prefixo(s: Seq<Trashed>, k: usize, p: int)
    requires
        0 <= p <= s.len(),
        forall|q: int| p <= q < s.len() ==> (#[trigger] s[q]).index > k,
    ensures
        posicao_apos(s, k) == posicao_apos(s.subrange(0, p), k),
    decreases s.len() - p,
{
    if p < s.len() {
        assert(s.drop_last().subrange(0, p) =~= s.subrange(0, p));
        lemma_posicao_apos_prefixo(s.drop_last(), k, p);
    } else {
        assert(s.subrange(0, p) =~= s);
    }
}

/// What `restore_last_batch` does when the trash is not empty: the newest
/// batch leaves the trash and its tasks go back, by ascending position.
pub open spec fn efeito_restore_last_batch(antes: Db, depois: Db, n: nat) -> bool {
    let b = maior_lote(antes.trash@);
    let lote = do_lote(antes.trash@, b);
    &&& n == lote.len()
    &&& depois.trash@ == fora_do_lote(antes.trash@, b)
    &&& depois.todos@ == reinserir(antes.todos@, ordenar(lote))
    &&& depois.trash_dropped == antes.trash_dropped
    &&& depois.categories == antes.categories
    &&& depois.schema == antes.schema
}

/// Inserts `x` into `v` after every entry whose position is not greater.
fn inserir_por_posicao(v: &mut Vec<Trashed>, x: Trashed)
    ensures
        final(v)@ == inserir_ordenado(old(v)@, x),
{
    let k = x.index;
    let mut p = v.len();
    while p > 0 && v[p - 1].index > k
        invariant
            0 <= p <= v@.len(),
            v@ == old(v)@,
            forall|q: int| p <= q < v@.len() ==> (#[trigger] v@[q]).index > k,
        decreases p,
    {
        p = p - 1;
    }
    proof {
        lemma_posicao_apos_prefixo(v@, k, p as int);
        if p > 0 {
            assert(v@.subrange(0, p as int).last() == v@[p - 1]);
        }
    }
    v.insert(p, x);
}

impl Store {
    /// Puts back the newest batch of the trash (one removal, or a whole clear
    /// of the completed tasks) and returns how many tasks came back.
    ///
    /// The entries are put back by ascending position, each at its position
    /// limited to the current length of the list: if the list shrank
    /// meanwhile, a task comes back as close as it can to where it was, and
    /// the relative order of the batch is always kept.
    pub fn restore_last_batch(&mut self) -> (r: Result<usize, OpsError>)
        ensures
            old(self).dados().trash@.len() == 0 ==> r == Err::<usize, OpsError>(
                OpsError::NothingToRestore,
            ) && intacta(*old(self), *final(self)),
            old(self).dados().trash@.len() > 0 ==> (r matches Ok(n) && efeito_restore_last_batch(
                old(self).dados(),
                final(self).dados(),
                n as nat,
            )),
            so_dados(*old(self), *final(self)),
    {
        let n = self.db().trash.len();
        if n == 0 {
            return Err(OpsError::NothingToRestore);
        }
        let ghost antes = self.dados();
        let ghost trash0 = antes.trash@;
        let mut ultimo: u64 = 0;
        let mut i: usize = 0;
        while i < n
            invariant
                0 <= i <= n,
                n == trash0.len(),
                self.dados() == antes,
                trash0 == antes.trash@,
                ultimo == maior_lote(trash0.subrange(0, i as int)),
            decreases n - i,
        {
            assert(trash0.subrange(0, i + 1).drop_last() =~= trash0.subrange(0, i as int));
            if self.db().trash[i].batch > ultimo {
                ultimo = self.db().trash[i].batch;
            }
            i = i + 1;
        }
        assert(trash0.subrange(0, n as int) =~= trash0);
        let ghost b = maior_lote(trash0);
        let mut lote: Vec<Trashed> = Vec::new();
        let mut resto: Vec<Trashed> = Vec::new();
        let mut j: usize = 0;
        while j < n
            invariant
                0 <= j <= n,
                n == trash0.len(),
                self.dados() == antes,
                trash0 == antes.trash@,
                ultimo == b,
                lote@ == do_lote(trash0.subrange(0, j as int), b),
                resto@ == fora_do_lote(trash0.subrange(0, j as int), b),
            decreases n - j,
        {
            assert(trash0.subrange(0, j + 1).drop_last() =~= trash0.subrange(0, j as int));
            let e = self.db().trash[j].copia();
            if e.batch == ultimo {
                lote.push(e);
            } else {
                resto.push(e);
            }
            j = j + 1;
        }
        assert(trash0.subrange(0, n as int) =~= trash0);
        let mut ordenado: Vec<Trashed> = Vec::new();
        let mut k: usize = 0;
        while k < lote.len()
            invariant
                0 <= k <= lote@.len(),
                ordenado@ == ordenar(lote@.subrange(0, k as int)),
            decreases lote@.len() - k,
        {
            assert(lote@.subrange(0, k + 1).drop_last() =~= lote@.subrange(0, k as int));
            let e = lote[k].copia();
            inserir_por_posicao(&mut ordenado, e);
            k = k + 1;
        }
        assert(lote@.subrange(0, lote@.len() as int) =~= lote@);
        let restaurados = lote.len();
        proof {
            lemma_ordenar_len(lote@);
        }
        let db = self.db_mut();
        db.trash = resto;
        let ghost todos0 = antes.todos@;
        let mut q: usize = 0;
        while q < ordenado.len()
            invariant
                0 <= q <= ordenado@.len(),
                db.todos@ == reinserir(todos0, ordenado@.subrange(0, q as int)),
                db.trash@ == fora_do_lote(trash0, b),
                db.trash_dropped == antes.trash_dropped,
                db.categories == antes.categories,
                db.schema == antes.schema,
            decreases ordenado@.len() - q,
        {
            assert(ordenado@.subrange(0, q + 1).drop_last() =~= ordenado@.subrange(0, q as int));
            let e = ordenado[q].copia();
            let len = db.todos.len();
            let posicao = if e.index <= len {
                e.index
            } else {
                len
            };
            db.todos.insert(posicao, e.todo);
            q = q + 1;
        }
        assert(ordenado@.subrange(0, ordenado@.len() as int) =~= ordenado@);
        Ok(restaurados)
    }
}

// --------------------------------------------------------------- the laws

/// `s` in reverse order.
pub open spec fn invertido(s: Seq<Trashed>) -> Seq<Trashed>
    decreases s.len(),
{
    if s.len() == 0 {
        s
    } else {
        seq![s.last()] + invertido(s.drop_last())
    }
}

proof fn lemma_invertido(s: Seq<Trashed>)
    ensures
        invertido(s).len() == s.len(),
        forall|j: int| 0 <= j < s.len() ==> #[trigger] invertido(s)[j] == s[s.len() - 1 - j],
    decreases s.len(),
{
    if s.len() > 0 {
        lemma_invertido(s.drop_last());
        assert forall|j: int| 0 <= j < s.len() implies #[trigger] invertido(s)[j] == s[s.len() - 1
            - j] by {
            if j > 0 {
                assert(invertido(s)[j] == invertido(s.drop_last())[j - 1]);
            }
        }
    }
}

/// Sorting entries whose positions strictly decrease reverses them.
proof fn lemma_ordenar_decrescente(s: Seq<Trashed>)
    requires
        forall|j: int, k: int| 0 <= j < k < s.len() ==> (#[trigger] s[j]).index > (#[trigger] s[k]).index,
    ensures
        ordenar(s) == invertido(s),
    decreases s.len(),
{
    if s.len() > 0 {
        let d = s.drop_last();
        assert forall|j: int, k: int| 0 <= j < k < d.len() implies (#[trigger] d[j]).index > (
        #[trigger] d[k]).index by {
            assert(d[j] == s[j] && d[k] == s[k]);
        }
        lemma_ordenar_decrescente(d);
        lemma_invertido(d);
        let r = invertido(d);
        assert forall|q: int| 0 <= q < r.len() implies (#[trigger] r[q]).index > s.last().index by {
            assert(r[q] == d[d.len() - 1 - q]);
            assert(d[d.len() - 1 - q] == s[d.len() - 1 - q]);
        }
        lemma_posicao_apos_prefixo(r, s.last().index, 0);
        assert(r.subrange(0, 0).len() == 0);
        assert(ordenar(s) =~= seq![s.last()] + r);
    }
}

/// Batches: entries of an older part all below `b`, entries of a newer part
/// all in `b`.
proof fn lemma_lote_novo(s: Seq<Trashed>, t: Seq<Trashed>, b: nat)
    requires
        forall|i: int| 0 <= i < s.len() ==> (#[trigger] s[i]).batch < b,
        forall|j: int| 0 <= j < t.len() ==> (#[trigger] t[j]).batch == b,
    ensures
        do_lote(s + t, b) == t,
        fora_do_lote(s + t, b) == s,
        t.len() > 0 ==> maior_lote(s + t) == b,
        t.len() == 0 ==> maior_lote(s + t) == maior_lote(s),
    decreases t.len(),
{
    if t.len() == 0 {
        assert(s + t =~= s);
        lemma_fora_do_lote_velho(s, b);
    } else {
        let t2 = t.drop_last();
        assert forall|j: int| 0 <= j < t2.len() implies (#[trigger] t2[j]).batch == b by {
            assert(t2[j] == t[j]);
        }
        lemma_lote_novo(s, t2, b);
        assert((s + t).drop_last() =~= s + t2);
        assert((s + t).last() == t.last());
        assert(do_lote(s + t, b) =~= do_lote(s + t2, b).push(t.last()));
        assert(t2.push(t.last()) =~= t);
        if t2.len() == 0 {
            lemma_maior_lote(s);
            if s.len() > 0 {
                let i = choose|i: int| 0 <= i < s.len() && (#[trigger] s[i]).batch == maior_lote(s);
                assert(s[i].batch < b);
            }
        }
    }
}

proof fn lemma_fora_do_lote_velho(s: Seq<Trashed>, b: nat)
    requires
        forall|i: int| 0 <= i < s.len() ==> (#[trigger] s[i]).batch < b,
    ensures
        do_lote(s, b).len() == 0,
        fora_do_lote(s, b) == s,
    decreases s.len(),
{
    if s.len() > 0 {
        let d = s.drop_last();
        assert forall|i: int| 0 <= i < d.len() implies (#[trigger] d[i]).batch < b by {
            assert(d[i] == s[i]);
        }
        lemma_fora_do_lote_velho(d, b);
        assert(d.push(s.last()) =~= s);
    }
}

/// Putting back, in ascending order, the done tasks of `s` at the positions
/// they had, into the tasks of `s` that are not done, gives `s` back; and
/// what follows in the list stays after them.
proof fn lemma_reinserir_concluidas(s: Seq<Todo>, t: Seq<Todo>, e: Seq<Trashed>)
    requires
        e.len() == indices_concluidas(s).len(),
        forall|j: int|
            0 <= j < e.len() ==> (#[trigger] e[j]).index as int == indices_concluidas(s)[j]
                && e[j].todo == s[indices_concluidas(s)[j]],
    ensures
        reinserir(pendentes_de(s) + t, e) == s + t,
    decreases s.len(),
{
    if s.len() == 0 {
        assert(pendentes_de(s) + t =~= t);
        assert(s + t =~= t);
    } else {
        let d = s.drop_last();
        let x = s.last();
        let n = s.len();
        lemma_indices_concluidas(d);
        let a = indices_concluidas(d);
        if x.done {
            let e2 = e.drop_last();
            assert forall|j: int| 0 <= j < e2.len() implies (#[trigger] e2[j]).index as int == a[j]
                && e2[j].todo == d[a[j]] by {
                assert(e2[j] == e[j]);
                assert(indices_concluidas(s)[j] == a[j]);
                assert(s[a[j]] == d[a[j]]);
            }
            lemma_reinserir_concluidas(d, t, e2);
            let b = reinserir(pendentes_de(d) + t, e2);
            assert(b == d + t);
            assert(e.last().index as int == n - 1);
            assert(e.last().todo == x);
            assert((d + t).insert(n - 1, x) =~= s + t);
        } else {
            assert forall|j: int| 0 <= j < e.len() implies (#[trigger] e[j]).index as int == a[j]
                && e[j].todo == d[a[j]] by {
                assert(s[a[j]] == d[a[j]]);
            }
            lemma_reinserir_concluidas(d, seq![x] + t, e);
            assert(pendentes_de(s) + t =~= pendentes_de(d) + (seq![x] + t));
            assert(d + (seq![x] + t) =~= s + t);
        }
    }
}

/// Undo puts back a whole clear of the completed tasks: after
/// `clear_completed` and then `restore_last_batch`, the list is the list
/// before, every task at its old position, and the trash is as it was, with
/// the count of the entries the limit pushed out unchanged. This holds whenever the trash limit did not push entries of that batch
/// out (the batch and the trash before it fit in `TRASH_LIMIT`).
pub proof fn lei_desfazer_limpeza(
    antes: Db,
    meio: Db,
    novos: Seq<Trashed>,
    c: ClearOutcome,
    depois: Db,
    n: nat,
)
    requires
        indices_concluidas(antes.todos@).len() > 0,
        efeito_clear_completed(antes, meio, novos, c),
        antes.trash@.len() + novos.len() <= TRASH_LIMIT,
        efeito_restore_last_batch(meio, depois, n),
    ensures
        depois.todos@ == antes.todos@,
        depois.trash@ == antes.trash@,
        depois.trash_dropped == antes.trash_dropped,
        n == novos.len(),
{
    let b = maior_lote(antes.trash@) + 1;
    let s = antes.todos@;
    let a = indices_concluidas(s);
    let m = a.len();
    lemma_indices_concluidas(s);
    lemma_maior_lote(antes.trash@);
    assert(meio.trash@ == antes.trash@ + novos);
    lemma_lote_novo(antes.trash@, novos, b);
    assert(maior_lote(meio.trash@) == b);
    let lote = do_lote(meio.trash@, maior_lote(meio.trash@));
    {
        assert(lote == novos);
        assert forall|j: int, k: int| 0 <= j < k < novos.len() implies (#[trigger] novos[j]).index
            > (#[trigger] novos[k]).index by {
            assert(a[m - 1 - k] < a[m - 1 - j]);
        }
        lemma_ordenar_decrescente(novos);
        lemma_invertido(novos);
        let e = invertido(novos);
        assert forall|j: int| 0 <= j < e.len() implies (#[trigger] e[j]).index as int == a[j]
            && e[j].todo == s[a[j]] by {
            assert(e[j] == novos[m - 1 - j]);
        }
        lemma_reinserir_concluidas(s, seq![], e);
        assert(pendentes_de(s) + seq![] =~= pendentes_de(s));
        assert(s + seq![] =~= s);
    }
}

/// The trash after the limit holds the newest entries of what it was given.
proof fn lemma_aparar_lixo_push(s: Seq<Trashed>, e: Trashed)
    ensures
        aparar_lixo(s.push(e)).len() > 0,
        aparar_lixo(s.push(e)).last() == e,
        forall|q: int|
            0 <= q < aparar_lixo(s.push(e)).len() - 1 ==> s.contains(
                #[trigger] aparar_lixo(s.push(e))[q],
            ),
        s.len() < TRASH_LIMIT ==> aparar_lixo(s.push(e)) == s.push(e),
{
    let t = aparar_lixo(s.push(e));
    assert forall|q: int| 0 <= q < t.len() - 1 implies s.contains(#[trigger] t[q]) by {
        if s.push(e).len() <= TRASH_LIMIT {
            assert(t[q] == s[q]);
        } else {
            let off = s.push(e).len() - TRASH_LIMIT;
            assert(t[q] == s[q + off]);
        }
    }
}

/// Undo puts back a removal: after `remove(id)` and then
/// `restore_last_batch`, the list is the list before, with the task at its
/// old position; one task comes back; and when the trash was below its limit
/// it is as it was, with the count of the entries the limit pushed out
/// unchanged.
pub proof fn lei_desfazer_remocao(
    antes: Db,
    id: Seq<char>,
    meio: Db,
    saidas: nat,
    depois: Db,
    n: nat,
)
    requires
        efeito_remove(antes, id, meio, saidas),
        efeito_restore_last_batch(meio, depois, n),
    ensures
        depois.todos@ == antes.todos@,
        n == 1,
        antes.trash@.len() < TRASH_LIMIT ==> depois.trash@ == antes.trash@,
        antes.trash@.len() < TRASH_LIMIT ==> depois.trash_dropped == antes.trash_dropped,
{
    let i = primeira(antes.todos@, id);
    let e = meio.trash@.last();
    let b = maior_lote(antes.trash@) + 1;
    lemma_tem_primeira(antes.todos@, id);
    lemma_maior_lote(antes.trash@);
    assert(seq![e] =~= Seq::<Trashed>::empty().push(e));
    assert(antes.trash@ + seq![e] =~= antes.trash@.push(e));
    lemma_aparar_lixo_push(antes.trash@, e);
    let velhos = meio.trash@.drop_last();
    assert forall|q: int| 0 <= q < velhos.len() implies (#[trigger] velhos[q]).batch < b by {
        assert(antes.trash@.contains(meio.trash@[q]));
        let w = choose|w: int| 0 <= w < antes.trash@.len() && antes.trash@[w] == meio.trash@[q];
        assert(antes.trash@[w].batch <= maior_lote(antes.trash@));
    }
    assert(velhos + seq![e] =~= meio.trash@);
    lemma_lote_novo(velhos, seq![e], b);
    assert(maior_lote(meio.trash@) == b);
    assert(do_lote(meio.trash@, b) == seq![e]);
    assert(seq![e].drop_last() =~= Seq::<Trashed>::empty());
    assert(ordenar(seq![e].drop_last()) =~= Seq::<Trashed>::empty());
    assert(posicao_apos(Seq::<Trashed>::empty(), e.index) == 0);
    assert(ordenar(seq![e]) =~= seq![e]);
    let base = antes.todos@.remove(i);
    assert(reinserir(base, seq![e].drop_last()) == base);
    assert(reinserir(base, seq![e]) == base.insert(i, e.todo));
    assert(base.insert(i, e.todo) =~= antes.todos@);
    if antes.trash@.len() < TRASH_LIMIT {
        assert(velhos =~= antes.trash@);
    }
}

/// Putting back one removed task by its `id` gives the list back as it was,
/// when the trash did not already hold another entry for the same `id`.
pub proof fn lei_restaurar_remocao(
    antes: Db,
    id: Seq<char>,
    meio: Db,
    saidas: nat,
    depois: Db,
    p: nat,
)
    requires
        !no_lixo(antes.trash@, id),
        efeito_remove(antes, id, meio, saidas),
        efeito_restore(meio, id, depois, p),
    ensures
        depois.todos@ == antes.todos@,
        p == primeira(antes.todos@, id),
{
    let i = primeira(antes.todos@, id);
    let e = meio.trash@.last();
    lemma_tem_primeira(antes.todos@, id);
    assert(antes.trash@ + seq![e] =~= antes.trash@.push(e));
    lemma_aparar_lixo_push(antes.trash@, e);
    let t = meio.trash@;
    assert forall|k: int| 0 <= k < t.len() - 1 implies (#[trigger] t[k]).todo.id@ != id by {
        assert(antes.trash@.contains(t[k]));
        let w = choose|w: int| 0 <= w < antes.trash@.len() && antes.trash@[w] == t[k];
        assert(antes.trash@[w].todo.id@ != id);
    }
    assert(e_primeira_no_lixo(t, id, t.len() - 1));
    lemma_primeira_no_lixo(t, id, t.len() - 1);
    assert(antes.todos@.remove(i).insert(i, e.todo) =~= antes.todos@);
}

/// Three steps of the priority cycle come back to the start.
pub proof fn lei_ciclo_de_prioridade(p: Priority)
    ensures
        seguinte(seguinte(seguinte(p))) == p,
        seguinte(p) != p,
{
}

/// The trash never holds more than `TRASH_LIMIT` entries, and nothing leaves
/// it unaccounted: what stays plus what the limit pushed out is everything
/// that was there and everything that came in; below the limit nothing leaves.
pub proof fn lei_lixo_dentro_do_limite(trash: Seq<Trashed>, novos: Seq<Trashed>)
    ensures
        lixo_depois(trash, novos).len() <= TRASH_LIMIT,
        lixo_depois(trash, novos).len() + saidas_do_lixo(trash + novos) == trash.len()
            + novos.len(),
        trash.len() + novos.len() <= TRASH_LIMIT ==> lixo_depois(trash, novos) == trash + novos,
{
}

// ------------------------------------------------------------ categories

/// The name of `c`, compared without case, collides with `alvo`, and `c` is
/// not the category being renamed.
pub open spec fn colide(c: Category, alvo: Seq<char>, excepto: Option<Seq<char>>) -> bool {
    &&& minusculas(c.name@) == alvo
    &&& !(excepto matches Some(x) && x == c.id@)
}

pub open spec fn e_primeira_colisao(
    cats: Seq<Category>,
    alvo: Seq<char>,
    excepto: Option<Seq<char>>,
    i: int,
) -> bool {
    &&& 0 <= i < cats.len()
    &&& colide(cats[i], alvo, excepto)
    &&& forall|k: int| 0 <= k < i ==> !colide(#[trigger] cats[k], alvo, excepto)
}

pub open spec fn tem_colisao(cats: Seq<Category>, alvo: Seq<char>, excepto: Option<Seq<char>>) -> bool {
    exists|i: int| 0 <= i < cats.len() && colide(#[trigger] cats[i], alvo, excepto)
}

/// The outcome of validating a category name against `cats`: the trimmed name
/// when it is not empty and no other category has it (ignoring case).
pub open spec fn validacao_do_nome(
    cats: Seq<Category>,
    nome: Seq<char>,
    excepto: Option<Seq<char>>,
    r: Result<String, OpsError>,
) -> bool {
    let limpo = aparado(nome);
    let alvo = minusculas(limpo);
    if limpo.len() == 0 {
        r == Err::<String, OpsError>(OpsError::EmptyName)
    } else if tem_colisao(cats, alvo, excepto) {
        exists|i: int|
            e_primeira_colisao(cats, alvo, excepto, i) && (r matches Err(OpsError::DuplicateName(
                n,
            )) && n@ == (#[trigger] cats[i]).name@)
    } else {
        r matches Ok(s) && s@ == limpo
    }
}

/// `i` is the first position of a category with identifier `id`.
pub open spec fn e_primeira_categoria(cats: Seq<Category>, id: Seq<char>, i: int) -> bool {
    &&& 0 <= i < cats.len()
    &&& cats[i].id@ == id
    &&& forall|k: int| 0 <= k < i ==> (#[trigger] cats[k]).id@ != id
}

fn posicao_da_categoria(cats: &Vec<Category>, id: &CategoryId) -> (r: Option<usize>)
    ensures
        match r {
            Some(i) => e_primeira_categoria(cats@, id@, i as int),
            None => !categoria_existe(cats@, id@),
        },
{
    let mut i: usize = 0;
    while i < cats.len()
        invariant
            0 <= i <= cats@.len(),
            forall|k: int| 0 <= k < i ==> (#[trigger] cats@[k]).id@ != id@,
        decreases cats@.len() - i,
    {
        if cats[i].id.igual(id) {
            return Some(i);
        }
        i = i + 1;
    }
    None
}

/// The task with its reference to the category `id` taken away.
pub open spec fn sem_a_categoria(t: Todo, id: Seq<char>) -> Todo {
    if t.category_id matches Some(c) && c@ == id {
        Todo { category_id: None, ..t }
    } else {
        t
    }
}

/// How many tasks of `s` point at the category `id`.
pub open spec fn referencias_a(s: Seq<Todo>, id: Seq<char>) -> nat
    decreases s.len(),
{
    if s.len() == 0 {
        0
    } else {
        referencias_a(s.drop_last(), id) + if s.last().category_id matches Some(c) && c@ == id {
            1nat
        } else {
            0nat
        }
    }
}

/// No more tasks point at a category than there are tasks.
pub proof fn lemma_referencias_no_maximo(s: Seq<Todo>, id: Seq<char>)
    ensures
        referencias_a(s, id) <= s.len(),
    decreases s.len(),
{
    if s.len() > 0 {
        lemma_referencias_no_maximo(s.drop_last(), id);
    }
}

fn aponta(t: &Todo, id: &CategoryId) -> (r: bool)
    ensures
        r == (t.category_id matches Some(c) && c@ == id@),
{
    match &t.category_id {
        Some(c) => c.igual(id),
        None => false,
    }
}

/// What creating a category with `name` did: on success the trimmed name
/// is appended with a fresh identifier and nothing else changed; on failure
/// the name was refused and nothing changed.
pub open spec fn efeito_add_category(
    antes: Store,
    depois: Store,
    name: Seq<char>,
    r: Result<CategoryId, OpsError>,
) -> bool {
    match r {
        Ok(id) => {
            let cats = depois.dados().categories@;
            &&& validacao_do_nome(
                antes.dados().categories@,
                name,
                None,
                Ok::<String, OpsError>(cats.last().name),
            )
            &&& cats.len() == antes.dados().categories@.len() + 1
            &&& cats.drop_last() == antes.dados().categories@
            &&& cats.last().id == id
            &&& id@.len() == 36
            &&& depois.dados().todos == antes.dados().todos
            &&& depois.dados().trash == antes.dados().trash
            &&& depois.dados().trash_dropped == antes.dados().trash_dropped
            &&& depois.dados().schema == antes.dados().schema
        },
        Err(e) => validacao_do_nome(
            antes.dados().categories@,
            name,
            None,
            Err::<String, OpsError>(e),
        ) && intacta(antes, depois),
    }
}

/// What renaming the category `id` to `name` did: the name is validated
/// first; on success the first category with `id` took the trimmed name
/// and nothing else changed; on failure nothing changed.
pub open spec fn efeito_rename_category(
    antes: Store,
    depois: Store,
    id: CategoryId,
    name: Seq<char>,
    r: Result<(), OpsError>,
) -> bool {
    &&& r is Err ==> intacta(antes, depois)
    &&& match r {
        Err(OpsError::CategoryNotFound(x)) => x == id && !categoria_existe(
            antes.dados().categories@,
            id@,
        ) && exists|s: String| #[trigger]
            validacao_do_nome(
                antes.dados().categories@,
                name,
                Some(id@),
                Ok::<String, OpsError>(s),
            ),
        Err(e) => validacao_do_nome(
            antes.dados().categories@,
            name,
            Some(id@),
            Err::<String, OpsError>(e),
        ),
        Ok(()) => exists|k: int|
            e_primeira_categoria(antes.dados().categories@, id@, k) && {
                let novo = (#[trigger] depois.dados().categories@[k]);
                &&& validacao_do_nome(
                    antes.dados().categories@,
                    name,
                    Some(id@),
                    Ok::<String, OpsError>(novo.name),
                )
                &&& depois.dados().categories@ == antes.dados().categories@.update(
                    k,
                    Category { name: novo.name, ..antes.dados().categories@[k] },
                )
                &&& depois.dados().todos == antes.dados().todos
                &&& depois.dados().trash == antes.dados().trash
                &&& depois.dados().trash_dropped == antes.dados().trash_dropped
                &&& depois.dados().schema == antes.dados().schema
            },
    }
}

/// What deleting the category `id` did: an unknown `id` is an error and
/// nothing changed; otherwise the first category with `id` is gone, every
/// task of the list and of the trash lost its reference to it, and the
/// result counts the tasks that lost it.
pub open spec fn efeito_delete_category(
    antes: Store,
    depois: Store,
    id: CategoryId,
    r: Result<usize, OpsError>,
) -> bool {
    &&& !categoria_existe(antes.dados().categories@, id@) ==> r == Err::<usize, OpsError>(
        OpsError::CategoryNotFound(id),
    ) && intacta(antes, depois)
    &&& categoria_existe(antes.dados().categories@, id@) ==> exists|k: int|
        #[trigger] e_primeira_categoria(antes.dados().categories@, id@, k) && {
            let a = antes.dados();
            let d = depois.dados();
            &&& d.categories@ == a.categories@.remove(k)
            &&& d.todos@ == a.todos@.map_values(|t: Todo| sem_a_categoria(t, id@))
            &&& d.trash@.len() == a.trash@.len()
            &&& forall|j: int|
                0 <= j < a.trash@.len() ==> #[trigger] d.trash@[j] == (Trashed {
                    todo: sem_a_categoria(a.trash@[j].todo, id@),
                    ..a.trash@[j]
                })
            &&& r == Ok::<usize, OpsError>(
                (referencias_a(a.todos@, id@) + referencias_a(
                    crate::dominio::store::tarefas_do_lixo(a.trash@),
                    id@,
                )) as usize,
            )
            &&& d.trash_dropped == a.trash_dropped
            &&& d.schema == a.schema
        }
}

impl Store {
    /// The category with this `id`, if it exists.
    pub fn category(&self, id: &CategoryId) -> (r: Option<&Category>)
        ensures
            match r {
                Some(c) => exists|i: int|
                    e_primeira_categoria(self.dados().categories@, id@, i) && *c == (
                    #[trigger] self.dados().categories@[i]),
                None => !categoria_existe(self.dados().categories@, id@),
            },
    {
        match posicao_da_categoria(self.categories(), id) {
            Some(i) => Some(&self.categories()[i]),
            None => None,
        }
    }

    /// Validates a category name and returns it trimmed. `excepto` is the
    /// category that may keep the name: the one being renamed (fixing the case
    /// of its own name is not a collision).
    fn validar_nome(&self, name: &str, excepto: Option<&CategoryId>) -> (r: Result<String, OpsError>)
        ensures
            validacao_do_nome(
                self.dados().categories@,
                name@,
                match excepto {
                    Some(x) => Some(x@),
                    None => None,
                },
                r,
            ),
    {
        let ghost exc = match excepto {
            Some(x) => Some(x@),
            None => None::<Seq<char>>,
        };
        let nome = aparar(name);
        if nome.as_str().is_empty() {
            return Err(OpsError::EmptyName);
        }
        let alvo = para_minusculas(nome.as_str());
        let cats = self.categories();
        let mut i: usize = 0;
        while i < cats.len()
            invariant
                0 <= i <= cats@.len(),
                cats@ == self.dados().categories@,
                alvo@ == minusculas(aparado(name@)),
                aparado(name@).len() > 0,
                exc == match excepto {
                    Some(x) => Some(x@),
                    None => None::<Seq<char>>,
                },
                forall|k: int| 0 <= k < i ==> !colide(#[trigger] cats@[k], alvo@, exc),
            decreases cats@.len() - i,
        {
            let chave = para_minusculas(cats[i].name.as_str());
            let proprio = match excepto {
                Some(x) => cats[i].id.igual(x),
                None => false,
            };
            if iguais(chave.as_str(), alvo.as_str()) && !proprio {
                assert(e_primeira_colisao(cats@, alvo@, exc, i as int));
                let r: Result<String, OpsError> = Err(OpsError::DuplicateName(cats[i].name.clone()));
                assert(colide(cats@[i as int], alvo@, exc));
                assert(tem_colisao(cats@, alvo@, exc));
                assert(r matches Err(OpsError::DuplicateName(n)) && n@ == cats@[i as int].name@);
                assert(self.dados().categories@[i as int] == cats@[i as int]);
                assert(validacao_do_nome(self.dados().categories@, name@, exc, r));
                return r;
            }
            i = i + 1;
        }
        Ok(nome)
    }

    /// Creates a category with this name (trimmed) and returns its new `id`.
    /// An empty name, or one that another category has (ignoring case), is
    /// refused and nothing changes.
    pub fn add_category(&mut self, name: &str) -> (r: Result<CategoryId, OpsError>)
        ensures
            efeito_add_category(*old(self), *final(self), name@, r),
            so_dados(*old(self), *final(self)),
    {
        let nome = match self.validar_nome(name, None) {
            Ok(n) => n,
            Err(e) => return Err(e),
        };
        let ghost antes = *self;
        let categoria = Category { id: CategoryId::new(), name: nome };
        let id = categoria.id.copia();
        let db = self.db_mut();
        db.categories.push(categoria);
        assert(self.dados().categories@.drop_last() =~= antes.dados().categories@);
        assert(self.dados().categories@.last() == categoria);
        Ok(id)
    }

    /// Renames the category `id`. The `id` does not change and no task holds
    /// the name, so nothing else changes. The name is validated first (empty,
    /// or taken by another category); then an unknown `id` is an error.
    pub fn rename_category(&mut self, id: &CategoryId, name: &str) -> (r: Result<(), OpsError>)
        ensures
            efeito_rename_category(*old(self), *final(self), *id, name@, r),
            so_dados(*old(self), *final(self)),
    {
        let nome = match self.validar_nome(name, Some(id)) {
            Ok(n) => n,
            Err(e) => return Err(e),
        };
        let ghost nome_g = nome;
        let k = match posicao_da_categoria(self.categories(), id) {
            Some(k) => k,
            None => return Err(OpsError::CategoryNotFound(id.copia())),
        };
        let db = self.db_mut();
        let mut c = db.categories[k].copia();
        c.name = nome;
        db.categories.set(k, c);
        assert(final(self).dados().categories@[k as int].name == nome_g);
        Ok(())
    }

    /// Deletes the category `id` and takes it away from every task that
    /// pointed at it, in the list and in the trash (a trash entry that kept
    /// it would come back with a dangling reference). Returns how many tasks
    /// lost it. The tasks stay. An unknown `id` is an error and nothing
    /// changes.
    pub fn delete_category(&mut self, id: &CategoryId) -> (r: Result<usize, OpsError>)
        requires
            old(self).dados().todos@.len() + old(self).dados().trash@.len() <= usize::MAX,
        ensures
            efeito_delete_category(*old(self), *final(self), *id, r),
            so_dados(*old(self), *final(self)),
    {
        let k = match posicao_da_categoria(self.categories(), id) {
            Some(k) => k,
            None => return Err(OpsError::CategoryNotFound(id.copia())),
        };
        let ghost antes = self.dados();
        let ghost todos0 = antes.todos@;
        let ghost trash0 = antes.trash@;
        let ghost lixo0 = crate::dominio::store::tarefas_do_lixo(trash0);
        let db = self.db_mut();
        db.categories.remove(k);
        let mut afectadas: usize = 0;
        let n = db.todos.len();
        let mut i: usize = 0;
        while i < n
            invariant
                0 <= i <= n,
                n == todos0.len(),
                n + trash0.len() <= usize::MAX,
                db.todos@.len() == n,
                db.trash@ == trash0,
                db.categories@ == antes.categories@.remove(k as int),
                db.trash_dropped == antes.trash_dropped,
                db.schema == antes.schema,
                forall|q: int| 0 <= q < i ==> #[trigger] db.todos@[q] == sem_a_categoria(todos0[q], id@),
                forall|q: int| i <= q < n ==> #[trigger] db.todos@[q] == todos0[q],
                afectadas == referencias_a(todos0.subrange(0, i as int), id@),
                afectadas <= i,
            decreases n - i,
        {
            assert(todos0.subrange(0, i + 1).drop_last() =~= todos0.subrange(0, i as int));
            if aponta(&db.todos[i], id) {
                let mut t = db.todos[i].copia();
                t.category_id = None;
                db.todos.set(i, t);
                afectadas = afectadas + 1;
            }
            i = i + 1;
        }
        assert(todos0.subrange(0, n as int) =~= todos0);
        assert(db.todos@ =~= todos0.map_values(|t: Todo| sem_a_categoria(t, id@)));
        let m = db.trash.len();
        let mut j: usize = 0;
        let ghost na_lista = afectadas;
        while j < m
            invariant
                0 <= j <= m,
                m == trash0.len(),
                n + m <= usize::MAX,
                na_lista <= n,
                db.trash@.len() == m,
                db.todos@ == todos0.map_values(|t: Todo| sem_a_categoria(t, id@)),
                db.categories@ == antes.categories@.remove(k as int),
                db.trash_dropped == antes.trash_dropped,
                db.schema == antes.schema,
                lixo0 == crate::dominio::store::tarefas_do_lixo(trash0),
                forall|q: int|
                    0 <= q < j ==> #[trigger] db.trash@[q] == (Trashed {
                        todo: sem_a_categoria(trash0[q].todo, id@),
                        ..trash0[q]
                    }),
                forall|q: int| j <= q < m ==> #[trigger] db.trash@[q] == trash0[q],
                afectadas == na_lista + referencias_a(lixo0.subrange(0, j as int), id@),
                afectadas <= na_lista + j,
            decreases m - j,
        {
            assert(lixo0.subrange(0, j + 1).drop_last() =~= lixo0.subrange(0, j as int));
            assert(lixo0[j as int] == trash0[j as int].todo);
            if aponta(&db.trash[j].todo, id) {
                let mut e = db.trash[j].copia();
                e.todo.category_id = None;
                db.trash.set(j, e);
                afectadas = afectadas + 1;
            }
            j = j + 1;
        }
        assert(lixo0.subrange(0, m as int) =~= lixo0);
        Ok(afectadas)
    }

    /// Gives the task `todo` the category (or takes it away, with `None`).
    /// Everything is checked before anything changes: an unknown category,
    /// then an unknown task, is an error and nothing changes.
    pub fn assign_category(&mut self, todo: &TodoId, categoria: Option<&CategoryId>) -> (r: Result<
        (),
        OpsError,
    >)
        ensures
            (categoria matches Some(c) && !categoria_existe(old(self).dados().categories@, c@))
                ==> r == Err::<(), OpsError>(OpsError::CategoryNotFound(*categoria->0))
                && intacta(*old(self), *final(self)),
            !(categoria matches Some(c) && !categoria_existe(old(self).dados().categories@, c@))
                && !tem_id(old(self).dados().todos@, todo@) ==> r == Err::<(), OpsError>(
                OpsError::NotFound(*todo),
            ) && intacta(*old(self), *final(self)),
            !(categoria matches Some(c) && !categoria_existe(old(self).dados().categories@, c@))
                && tem_id(old(self).dados().todos@, todo@) ==> r is Ok,
            r is Ok ==> {
                let i = primeira(old(self).dados().todos@, todo@);
                &&& tem_id(old(self).dados().todos@, todo@)
                &&& tarefa_trocada(
                    *old(self),
                    *final(self),
                    i,
                    Todo {
                        category_id: match categoria {
                            Some(c) => Some(*c),
                            None => None,
                        },
                        ..old(self).dados().todos@[i]
                    },
                )
            },
            r is Err ==> intacta(*old(self), *final(self)),
    {
        if let Some(c) = categoria {
            if !crate::dominio::store::tem_categoria(self.categories(), c) {
                return Err(OpsError::CategoryNotFound(c.copia()));
            }
        }
        let alvo = match categoria {
            Some(c) => Some(c.copia()),
            None => None,
        };
        match posicao_de(self.todos(), todo) {
            None => Err(OpsError::NotFound(todo.copia())),
            Some(i) => {
                let mut t = self.todos()[i].copia();
                t.category_id = alvo;
                self.trocar_tarefa(i, t);
                Ok(())
            },
        }
    }
}

/// After deleting a category, no task in the list or in the trash points at
/// it any more.
pub proof fn lei_sem_referencias_pendentes(antes: Db, depois: Db, id: Seq<char>)
    requires
        depois.todos@ == antes.todos@.map_values(|t: Todo| sem_a_categoria(t, id)),
        depois.trash@.len() == antes.trash@.len(),
        forall|j: int|
            0 <= j < antes.trash@.len() ==> #[trigger] depois.trash@[j] == (Trashed {
                todo: sem_a_categoria(antes.trash@[j].todo, id),
                ..antes.trash@[j]
            }),
    ensures
        forall|i: int|
            0 <= i < depois.todos@.len() ==> !((#[trigger] depois.todos@[i]).category_id matches Some(
                c,
            ) && c@ == id),
        forall|j: int|
            0 <= j < depois.trash@.len() ==> !((#[trigger] depois.trash@[j]).todo.category_id matches Some(
                c,
            ) && c@ == id),
{
}

/// No two categories of `cats` have the same name when case is ignored.
pub open spec fn nomes_unicos(cats: Seq<Category>) -> bool {
    forall|i: int, j: int|
        0 <= i < j < cats.len() ==> minusculas((#[trigger] cats[i]).name@) != minusculas(
            (#[trigger] cats[j]).name@,
        )
}

/// No two categories of `cats` share an identifier.
pub open spec fn ids_unicos(cats: Seq<Category>) -> bool {
    forall|i: int, j: int| 0 <= i < j < cats.len() ==> (#[trigger] cats[i]).id@ != (#[trigger] cats[j]).id@
}

/// Creating a category keeps the names unique, ignoring case: a name that
/// passes the validation of `add_category` collides with none of the others.
pub proof fn lei_criar_categoria_mantem_nomes(cats: Seq<Category>, nome: Seq<char>, nova: Category)
    requires
        nomes_unicos(cats),
        validacao_do_nome(cats, nome, None, Ok::<String, OpsError>(nova.name)),
    ensures
        nomes_unicos(cats.push(nova)),
{
    let alvo = minusculas(aparado(nome));
    let t = cats.push(nova);
    assert forall|i: int, j: int| 0 <= i < j < t.len() implies minusculas((#[trigger] t[i]).name@)
        != minusculas((#[trigger] t[j]).name@) by {
        if j == cats.len() {
            assert(t[i] == cats[i]);
            if minusculas(cats[i].name@) == alvo {
                assert(colide(cats[i], alvo, None));
            }
        } else {
            assert(t[i] == cats[i] && t[j] == cats[j]);
        }
    }
}

/// Renaming a category keeps the names unique, ignoring case, when the
/// identifiers are unique: the new name collides with no other category.
pub proof fn lei_renomear_categoria_mantem_nomes(
    cats: Seq<Category>,
    id: Seq<char>,
    nome: Seq<char>,
    k: int,
    novo: String,
)
    requires
        nomes_unicos(cats),
        ids_unicos(cats),
        e_primeira_categoria(cats, id, k),
        validacao_do_nome(cats, nome, Some(id), Ok::<String, OpsError>(novo)),
    ensures
        nomes_unicos(cats.update(k, Category { name: novo, ..cats[k] })),
        ids_unicos(cats.update(k, Category { name: novo, ..cats[k] })),
{
    let alvo = minusculas(aparado(nome));
    let t = cats.update(k, Category { name: novo, ..cats[k] });
    assert forall|i: int, j: int| 0 <= i < j < t.len() implies minusculas((#[trigger] t[i]).name@)
        != minusculas((#[trigger] t[j]).name@) by {
        if i == k || j == k {
            let o = if i == k { j } else { i };
            assert(t[o] == cats[o]);
            assert(cats[o].id@ != id);
            if minusculas(cats[o].name@) == alvo {
                assert(colide(cats[o], alvo, Some(id)));
            }
        } else {
            assert(t[i] == cats[i] && t[j] == cats[j]);
        }
    }
    assert forall|i: int, j: int| 0 <= i < j < t.len() implies (#[trigger] t[i]).id@ != (
    #[trigger] t[j]).id@ by {
        assert(t[i].id == cats[i].id && t[j].id == cats[j].id);
    }
}

} // verus!


