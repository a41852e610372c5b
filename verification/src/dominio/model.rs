//! The domain model: tasks, their identifiers, priorities and categories.

use vstd::prelude::*;

use crate::dominio::tempo::{agora, data_de, data_do_instante, instante_valido, Data, Instante};
use crate::dominio::texto::{aparado, aparar, iguais, minusculas, minusculas_ascii, para_minusculas, so_ascii};

verus! {

/// `Uuid::new_v4().to_string()`: a fresh random identifier in its hyphenated
/// form, which is always 36 characters long.
#[verifier::external_body]
fn uuid_novo() -> (r: String)
    ensures
        r@.len() == 36,
{
    uuid::Uuid::new_v4().to_string()
}

/// Stable identifier of a task. Operations refer to a task by its id, never
/// by its position in the list.
#[derive(Debug, Clone, PartialEq, Eq, Hash, PartialOrd, Ord)]
pub struct TodoId(String);

impl View for TodoId {
    type V = Seq<char>;

    closed spec fn view(&self) -> Seq<char> {
        self.0@
    }
}

impl TodoId {
    /// A fresh random identifier.
    pub fn new() -> (r: TodoId)
        ensures
            r@.len() == 36,
    {
        TodoId(uuid_novo())
    }

    /// The identifier holding exactly `texto`.
    pub fn from_text(texto: String) -> (r: TodoId)
        ensures
            r@ == texto@,
    {
        TodoId(texto)
    }

    pub fn as_str(&self) -> (r: &str)
        ensures
            r@ == self@,
    {
        self.0.as_str()
    }

    /// A copy of the identifier.
    pub fn copia(&self) -> (r: TodoId)
        ensures
            r == *self,
            r@ == self@,
    {
        TodoId(self.0.clone())
    }

    /// Whether both identifiers hold the same text.
    pub fn igual(&self, outro: &TodoId) -> (r: bool)
        ensures
            r == (self@ == outro@),
    {
        iguais(self.0.as_str(), outro.0.as_str())
    }
}

/// Stable identifier of a category.
#[derive(Debug, Clone, PartialEq, Eq, Hash, PartialOrd, Ord)]
pub struct CategoryId(String);

impl View for CategoryId {
    type V = Seq<char>;

    closed spec fn view(&self) -> Seq<char> {
        self.0@
    }
}

impl CategoryId {
    /// A fresh random identifier.
    pub fn new() -> (r: CategoryId)
        ensures
            r@.len() == 36,
    {
        CategoryId(uuid_novo())
    }

    /// The identifier holding exactly `texto`.
    pub fn from_text(texto: String) -> (r: CategoryId)
        ensures
            r@ == texto@,
    {
        CategoryId(texto)
    }

    pub fn as_str(&self) -> (r: &str)
        ensures
            r@ == self@,
    {
        self.0.as_str()
    }

    pub fn copia(&self) -> (r: CategoryId)
        ensures
            r == *self,
            r@ == self@,
    {
        CategoryId(self.0.clone())
    }

    pub fn igual(&self, outro: &CategoryId) -> (r: bool)
        ensures
            r == (self@ == outro@),
    {
        iguais(self.0.as_str(), outro.0.as_str())
    }
}

/// A category: an identifier and the name shown to the user.
#[derive(Debug, Clone, PartialEq, Eq)]
pub struct Category {
    pub id: CategoryId,
    pub name: String,
}

impl Category {
    pub fn copia(&self) -> (r: Category)
        ensures
            r == *self,
    {
        Category { id: self.id.copia(), name: self.name.clone() }
    }
}

/// Priority of a task. The declaration order is the sort order:
/// `Low < Medium < High`.
#[derive(Debug, Clone, Copy, PartialEq, Eq, Structural, PartialOrd, Ord, Hash)]
pub enum Priority {
    Low,
    Medium,
    High,
}

impl Default for Priority {
    fn default() -> (r: Priority)
        ensures
            r == Priority::Medium,
    {
        Priority::Medium
    }
}

/// The rank of a priority in the sort order.
pub open spec fn nivel(p: Priority) -> int {
    match p {
        Priority::Low => 0,
        Priority::Medium => 1,
        Priority::High => 2,
    }
}

/// The label shown to the user.
pub open spec fn rotulo(p: Priority) -> Seq<char> {
    match p {
        Priority::Low => "baixa"@,
        Priority::Medium => "média"@,
        Priority::High => "alta"@,
    }
}

/// The name written to disk and to CSV (lower-case English).
pub open spec fn nome_em_disco(p: Priority) -> Seq<char> {
    match p {
        Priority::Low => "low"@,
        Priority::Medium => "medium"@,
        Priority::High => "high"@,
    }
}

/// What `Priority::from_legacy` accepts: the text, trimmed and in lower case
/// (the full Unicode mapping, so `MÉDIA` counts as `média`), names the
/// priority in English or Portuguese.
pub open spec fn prioridade_legada(t: Seq<char>) -> Option<Priority> {
    let k = minusculas(aparado(t));
    if k == "low"@ || k == "baixa"@ {
        Some(Priority::Low)
    } else if k == "medium"@ || k == "média"@ || k == "media"@ {
        Some(Priority::Medium)
    } else if k == "high"@ || k == "alta"@ {
        Some(Priority::High)
    } else {
        None
    }
}

/// The priority named by `t` when its trimmed text is ASCII: the same
/// names, in ASCII lower case.
pub open spec fn prioridade_legada_ascii(t: Seq<char>) -> Option<Priority> {
    let k = minusculas_ascii(aparado(t));
    if k == "low"@ || k == "baixa"@ {
        Some(Priority::Low)
    } else if k == "medium"@ || k == "media"@ {
        Some(Priority::Medium)
    } else if k == "high"@ || k == "alta"@ {
        Some(Priority::High)
    } else {
        None
    }
}

impl Priority {
    pub const ALL: [Priority; 3] = [Priority::Low, Priority::Medium, Priority::High];

    /// Rank in the sort order: 0, 1, 2 from low to high.
    pub fn rank(self) -> (r: u8)
        ensures
            r == nivel(self),
    {
        match self {
            Priority::Low => 0,
            Priority::Medium => 1,
            Priority::High => 2,
        }
    }

    pub fn label(self) -> (r: &'static str)
        ensures
            r@ == rotulo(self),
    {
        match self {
            Priority::Low => "baixa",
            Priority::Medium => "média",
            Priority::High => "alta",
        }
    }

    pub fn as_str(self) -> (r: &'static str)
        ensures
            r@ == nome_em_disco(self),
    {
        match self {
            Priority::Low => "low",
            Priority::Medium => "medium",
            Priority::High => "high",
        }
    }

    /// Accepts `"High"`, `"high"`, `"alta"`, `"MÉDIA"` and the like (the old `rtodo`
    /// wrote `"High"`).
    pub fn from_legacy(text: &str) -> (r: Option<Priority>)
        ensures
            r == prioridade_legada(text@),
            so_ascii(aparado(text@)) ==> r == prioridade_legada_ascii(text@),
    {
        let t = aparar(text);
        let k = para_minusculas(t.as_str());
        proof {
            reveal_strlit("média");
            assert("média"@.len() == 5 && ("média"@[1] as u32) >= 128);
            if so_ascii(aparado(text@)) {
                assert forall|i: int| 0 <= i < k@.len() implies (k@[i] as u32) < 128 by {
                    assert(k@[i] == crate::dominio::texto::minuscula_ascii(t@[i]));
                }
                assert(k@ != "média"@);
            }
        }
        let k = k.as_str();
        if iguais(k, "low") || iguais(k, "baixa") {
            Some(Priority::Low)
        } else if iguais(k, "medium") || iguais(k, "média") || iguais(k, "media") {
            Some(Priority::Medium)
        } else if iguais(k, "high") || iguais(k, "alta") {
            Some(Priority::High)
        } else {
            None
        }
    }
}

/// Validation errors of the model.
#[derive(Debug, Clone, Copy, PartialEq, Eq, Structural)]
pub enum TodoError {
    EmptyTitle,
}

impl TodoError {
    /// The message shown to the user.
    pub fn mensagem(&self) -> (r: String)
        ensures
            r@ == "o título não pode estar vazio"@,
    {
        "o título não pode estar vazio".to_owned()
    }
}

/// A task.
#[derive(Debug, Clone, PartialEq, Eq)]
pub struct Todo {
    pub id: TodoId,
    pub title: String,
    pub description: String,
    pub done: bool,
    pub priority: Priority,
    pub created_at: Instante,
    pub completed_at: Option<Instante>,
    pub due_at: Option<Data>,
    pub category_id: Option<CategoryId>,
}

/// A copy of an optional category reference.
pub fn copia_categoria(c: &Option<CategoryId>) -> (r: Option<CategoryId>)
    ensures
        r == *c,
{
    match c {
        Some(id) => Some(id.copia()),
        None => None,
    }
}

impl Todo {
    /// The calendar date of its creation, in the offset it was created in
    /// (the date column of the list); `None` when the instant cannot be
    /// represented.
    pub fn created_date(&self) -> (r: Option<Data>)
        ensures
            r == data_do_instante(self.created_at),
    {
        data_de(&self.created_at)
    }

    /// A task with a fresh `id`, created now, from `title` trimmed; an empty
    /// title is refused.
    pub fn try_new(title: &str) -> (r: Result<Todo, TodoError>)
        ensures
            aparado(title@).len() == 0 <==> r is Err,
            r matches Ok(t) ==> {
                &&& t.title@ == aparado(title@)
                &&& t.id@.len() == 36
                &&& t.description@.len() == 0
                &&& !t.done
                &&& t.priority == Priority::Medium
                &&& instante_valido(t.created_at)
                &&& t.completed_at is None
                &&& t.due_at is None
                &&& t.category_id is None
            },
            r matches Err(e) ==> e == TodoError::EmptyTitle,
    {
        let title = aparar(title);
        if title.as_str().is_empty() {
            return Err(TodoError::EmptyTitle);
        }
        Ok(Todo {
            id: TodoId::new(),
            title,
            description: String::new(),
            done: false,
            priority: Priority::Medium,
            created_at: agora(),
            completed_at: None,
            due_at: None,
            category_id: None,
        })
    }

    pub fn with_description(self, description: String) -> (r: Todo)
        ensures
            r == (Todo { description, ..self }),
    {
        Todo { description, ..self }
    }

    pub fn with_priority(self, priority: Priority) -> (r: Todo)
        ensures
            r == (Todo { priority, ..self }),
    {
        Todo { priority, ..self }
    }

    pub fn with_due_at(self, due_at: Option<Data>) -> (r: Todo)
        ensures
            r == (Todo { due_at, ..self }),
    {
        Todo { due_at, ..self }
    }

    pub fn with_category(self, category_id: Option<CategoryId>) -> (r: Todo)
        ensures
            r == (Todo { category_id, ..self }),
    {
        Todo { category_id, ..self }
    }

    /// Marks or unmarks the task as done, keeping `completed_at` coherent: it
    /// holds the moment of completion exactly while the task is done. Setting
    /// the state it already has changes nothing.
    pub fn set_done(&mut self, done: bool)
        ensures
            done == old(self).done ==> *final(self) == *old(self),
            done != old(self).done ==> {
                &&& final(self).done == done
                &&& final(self).completed_at is Some == done
                &&& (final(self).completed_at matches Some(i) ==> instante_valido(i))
                &&& *final(self) == (Todo {
                    done,
                    completed_at: final(self).completed_at,
                    ..*old(self)
                })
            },
    {
        if done == self.done {
            return;
        }
        self.done = done;
        self.completed_at = if done {
            Some(agora())
        } else {
            None
        };
    }

    pub fn toggle(&mut self)
        ensures
            final(self).done == !old(self).done,
            final(self).completed_at is Some == final(self).done,
            *final(self) == (Todo {
                done: final(self).done,
                completed_at: final(self).completed_at,
                ..*old(self)
            }),
    {
        let d = !self.done;
        self.set_done(d);
    }

    pub fn is_done(&self) -> (r: bool)
        ensures
            r == self.done,
    {
        self.done
    }

    /// A copy of the task.
    pub fn copia(&self) -> (r: Todo)
        ensures
            r == *self,
    {
        Todo {
            id: self.id.copia(),
            title: self.title.clone(),
            description: self.description.clone(),
            done: self.done,
            priority: self.priority,
            created_at: self.created_at,
            completed_at: self.completed_at,
            due_at: self.due_at,
            category_id: copia_categoria(&self.category_id),
        }
    }
}

} // verus!
