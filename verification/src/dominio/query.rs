//! Read-only queries on the database: what a view shows, searched and
//! ordered, and the counts of the status bar. The natural order is the order
//! of insertion, which undo keeps; every order of the list is stable, so
//! tasks it does not tell apart stay in that order.

use vstd::prelude::*;

use crate::dominio::model::{nivel, Category, CategoryId, Priority, Todo};
use crate::dominio::ops::pendentes_de;
use crate::dominio::store::{Db, Store, Trashed};
use crate::dominio::tempo::{Data, Instante};
use crate::dominio::texto::{caracteres, decimal, em_decimal, encontrar, minusculas, ocorrencia_desde, para_minusculas};

verus! {

/// Which tasks to show.
#[derive(Debug, Clone, Copy, PartialEq, Eq, Structural)]
pub enum Filter {
    All,
    /// Not done yet.
    Active,
    Done,
    /// The trash, newest removal first.
    Trash,
}

impl Default for Filter {
    fn default() -> (r: Filter)
        ensures
            r == Filter::All,
    {
        Filter::All
    }
}

/// Counts for the status bar.
#[derive(Debug, Clone, Copy, PartialEq, Eq, Structural, Default)]
pub struct Counts {
    pub active: usize,
    pub done: usize,
    pub trash: usize,
}

impl Counts {
    pub fn total(&self) -> (r: usize)
        requires
            self.active + self.done <= usize::MAX,
        ensures
            r == self.active + self.done,
    {
        self.active + self.done
    }
}

/// The label of a filter on the screen (`f` goes todas, pendentes,
/// concluídas).
pub open spec fn rotulo_do_filtro(f: Filter) -> Seq<char> {
    match f {
        Filter::All => "todas"@,
        Filter::Active => "pendentes"@,
        Filter::Done => "concluídas"@,
        Filter::Trash => "lixo"@,
    }
}

/// The status-bar title of a filter, with its count.
pub open spec fn titulo_do_filtro(f: Filter, c: Counts) -> Seq<char> {
    match f {
        Filter::All => decimal((c.active + c.done) as nat) + " todas"@,
        Filter::Active => decimal(c.active as nat) + " por fazer"@,
        Filter::Done => decimal(c.done as nat) + " concluídas"@,
        Filter::Trash => decimal(c.trash as nat) + " no lixo"@,
    }
}

impl Filter {
    pub const ALL: [Filter; 4] = [Filter::All, Filter::Active, Filter::Done, Filter::Trash];

    pub fn label(self) -> (r: &'static str)
        ensures
            r@ == rotulo_do_filtro(self),
    {
        match self {
            Filter::All => "todas",
            Filter::Active => "pendentes",
            Filter::Done => "concluídas",
            Filter::Trash => "lixo",
        }
    }

    /// Status-bar label, with the count.
    pub fn title(self, counts: Counts) -> (r: String)
        requires
            counts.active + counts.done <= usize::MAX,
        ensures
            r@ == titulo_do_filtro(self, counts),
    {
        let (n, resto) = match self {
            Filter::All => (counts.total(), " todas"),
            Filter::Active => (counts.active, " por fazer"),
            Filter::Done => (counts.done, " concluídas"),
            Filter::Trash => (counts.trash, " no lixo"),
        };
        let mut s = em_decimal(n as u64);
        s.append(resto);
        s
    }
}

/// The done tasks of `s`, in order.
pub open spec fn concluidas_de(s: Seq<Todo>) -> Seq<Todo>
    decreases s.len(),
{
    if s.len() == 0 {
        s
    } else if s.last().done {
        concluidas_de(s.drop_last()).push(s.last())
    } else {
        concluidas_de(s.drop_last())
    }
}

/// The tasks of the trash entries, newest first.
pub open spec fn lixo_recente_primeiro(s: Seq<Trashed>) -> Seq<Todo> {
    Seq::new(s.len(), |i: int| s[s.len() - 1 - i].todo)
}

/// What a filter shows of a database.
pub open spec fn vista(f: Filter, todos: Seq<Todo>, trash: Seq<Trashed>) -> Seq<Todo> {
    match f {
        Filter::All => todos,
        Filter::Active => pendentes_de(todos),
        Filter::Done => concluidas_de(todos),
        Filter::Trash => lixo_recente_primeiro(trash),
    }
}


// ------------------------------------------------------------ the orders

/// The orders of the list, in the order `s` goes through them.
#[derive(Debug, Clone, Copy, PartialEq, Eq, Structural)]
pub enum SortKey {
    /// Highest priority first.
    Priority,
    /// Pending before done.
    Status,
    /// Earliest due date first; tasks without one at the end.
    Due,
    /// By category, in the order the categories were created; tasks
    /// without one at the end.
    Category,
    /// Oldest created first.
    Oldest,
    /// Newest created first.
    Newest,
}

/// The order after `k`: priority, status, due date, category, oldest,
/// newest, and back to priority.
pub open spec fn ordem_seguinte(k: SortKey) -> SortKey {
    match k {
        SortKey::Priority => SortKey::Status,
        SortKey::Status => SortKey::Due,
        SortKey::Due => SortKey::Category,
        SortKey::Category => SortKey::Oldest,
        SortKey::Oldest => SortKey::Newest,
        SortKey::Newest => SortKey::Priority,
    }
}

/// The name of an order on the status line.
pub open spec fn rotulo_da_ordem(k: SortKey) -> Seq<char> {
    match k {
        SortKey::Priority => "prioridade"@,
        SortKey::Status => "estado"@,
        SortKey::Due => "prazo"@,
        SortKey::Category => "categoria"@,
        SortKey::Oldest => "mais antigas"@,
        SortKey::Newest => "mais recentes"@,
    }
}

impl SortKey {
    pub fn next(self) -> (r: SortKey)
        ensures
            r == ordem_seguinte(self),
    {
        match self {
            SortKey::Priority => SortKey::Status,
            SortKey::Status => SortKey::Due,
            SortKey::Due => SortKey::Category,
            SortKey::Category => SortKey::Oldest,
            SortKey::Oldest => SortKey::Newest,
            SortKey::Newest => SortKey::Priority,
        }
    }

    pub fn label(self) -> (r: &'static str)
        ensures
            r@ == rotulo_da_ordem(self),
    {
        match self {
            SortKey::Priority => "prioridade",
            SortKey::Status => "estado",
            SortKey::Due => "prazo",
            SortKey::Category => "categoria",
            SortKey::Oldest => "mais antigas",
            SortKey::Newest => "mais recentes",
        }
    }
}

/// `a` is an earlier calendar date than `b`.
pub open spec fn data_antes(a: Data, b: Data) -> bool {
    a.ano < b.ano || (a.ano == b.ano && (a.mes < b.mes || (a.mes == b.mes && a.dia < b.dia)))
}

/// `a` is an earlier instant than `b`.
pub open spec fn instante_antes(a: Instante, b: Instante) -> bool {
    a.segundos < b.segundos || (a.segundos == b.segundos && a.nanos < b.nanos)
}

/// The position of the first category of `cats` with identifier `id`, or
/// the number of categories when there is none.
pub open spec fn indice_da_categoria(cats: Seq<Category>, id: Seq<char>) -> nat
    decreases cats.len(),
{
    if cats.len() == 0 {
        0
    } else if cats[0].id@ == id {
        0
    } else {
        1 + indice_da_categoria(cats.drop_first(), id)
    }
}

/// Where a task goes in the order by category: the position of its
/// category, and after all of them when it has none.
pub open spec fn lugar_da_categoria(cats: Seq<Category>, t: Todo) -> nat {
    match t.category_id {
        Some(c) => indice_da_categoria(cats, c@),
        None => cats.len(),
    }
}

/// Under the order `k` (with the categories `cats`), `a` goes strictly
/// before `b`.
pub open spec fn antes(k: SortKey, cats: Seq<Category>, a: Todo, b: Todo) -> bool {
    match k {
        SortKey::Priority => nivel(a.priority) > nivel(b.priority),
        SortKey::Status => !a.done && b.done,
        SortKey::Due => match (a.due_at, b.due_at) {
            (Some(x), Some(y)) => data_antes(x, y),
            (Some(_), None) => true,
            _ => false,
        },
        SortKey::Category => lugar_da_categoria(cats, a) < lugar_da_categoria(cats, b),
        SortKey::Oldest => instante_antes(a.created_at, b.created_at),
        SortKey::Newest => instante_antes(b.created_at, a.created_at),
    }
}

/// The position of the first category of `cats` with the identifier `id`,
/// or the number of categories when none has it.
pub fn indice_de_categoria(cats: &Vec<Category>, id: &CategoryId) -> (r: usize)
    ensures
        r == indice_da_categoria(cats@, id@),
{
    let mut k: usize = 0;
    assert(cats@.skip(0) =~= cats@);
    while k < cats.len()
        invariant
            k <= cats@.len(),
            indice_da_categoria(cats@, id@) == k + indice_da_categoria(cats@.skip(k as int), id@),
        decreases cats@.len() - k,
    {
        assert(cats@.skip(k as int)[0] == cats@[k as int]);
        assert(cats@.skip(k as int).drop_first() =~= cats@.skip(k + 1));
        if cats[k].id.igual(id) {
            assert(cats@.skip(k as int)[0].id@ == id@);
            assert(indice_da_categoria(cats@.skip(k as int), id@) == 0);
            return k;
        }
        k = k + 1;
    }
    assert(cats@.skip(k as int).len() == 0);
    k
}

/// Where the task goes in the order by category.
fn lugar(cats: &Vec<Category>, t: &Todo) -> (r: usize)
    ensures
        r == lugar_da_categoria(cats@, *t),
{
    match &t.category_id {
        Some(c) => indice_de_categoria(cats, c),
        None => cats.len(),
    }
}

/// Whether `a` goes strictly before `b` under the order `k`.
pub fn vem_antes(k: SortKey, cats: &Vec<Category>, a: &Todo, b: &Todo) -> (r: bool)
    ensures
        r == antes(k, cats@, *a, *b),
{
    match k {
        SortKey::Priority => a.priority.rank() > b.priority.rank(),
        SortKey::Status => !a.done && b.done,
        SortKey::Due => match (&a.due_at, &b.due_at) {
            (Some(x), Some(y)) => x.ano < y.ano || (x.ano == y.ano && (x.mes < y.mes || (x.mes == y.mes
                && x.dia < y.dia))),
            (Some(_), None) => true,
            _ => false,
        },
        SortKey::Category => lugar(cats, a) < lugar(cats, b),
        SortKey::Oldest => a.created_at.segundos < b.created_at.segundos || (a.created_at.segundos
            == b.created_at.segundos && a.created_at.nanos < b.created_at.nanos),
        SortKey::Newest => b.created_at.segundos < a.created_at.segundos || (b.created_at.segundos
            == a.created_at.segundos && b.created_at.nanos < a.created_at.nanos),
    }
}

/// `x` put into `t` before the first task it goes before (after all those
/// it does not), which keeps the sort stable.
pub open spec fn inserida(t: Seq<Todo>, x: Todo, k: SortKey, cats: Seq<Category>) -> Seq<Todo>
    decreases t.len(),
{
    if t.len() == 0 {
        seq![x]
    } else if antes(k, cats, x, t[0]) {
        seq![x] + t
    } else {
        seq![t[0]] + inserida(t.drop_first(), x, k, cats)
    }
}

/// `s` in the order `k`, stable: the tasks taken in list order, each put
/// after those it does not go before.
pub open spec fn ordenada(s: Seq<Todo>, k: SortKey, cats: Seq<Category>) -> Seq<Todo>
    decreases s.len(),
{
    if s.len() == 0 {
        s
    } else {
        inserida(ordenada(s.drop_last(), k, cats), s.last(), k, cats)
    }
}

/// Putting `x` in at the first position `p` it goes before.
proof fn lemma_inserida(t: Seq<Todo>, x: Todo, k: SortKey, cats: Seq<Category>, p: int)
    requires
        0 <= p <= t.len(),
        forall|j: int| 0 <= j < p ==> !antes(k, cats, x, #[trigger] t[j]),
        p < t.len() ==> antes(k, cats, x, t[p]),
    ensures
        inserida(t, x, k, cats) == t.take(p) + seq![x] + t.skip(p),
    decreases t.len(),
{
    if t.len() == 0 {
        assert(t.take(p) + seq![x] + t.skip(p) =~= seq![x]);
    } else if p == 0 {
        assert(t.take(0) + seq![x] + t.skip(0) =~= seq![x] + t);
    } else {
        let r = t.drop_first();
        assert forall|j: int| 0 <= j < p - 1 implies !antes(k, cats, x, #[trigger] r[j]) by {
            assert(r[j] == t[j + 1]);
        }
        lemma_inserida(r, x, k, cats, p - 1);
        assert(seq![t[0]] + (r.take(p - 1) + seq![x] + r.skip(p - 1)) =~= t.take(p) + seq![x] + t.skip(p));
    }
}

/// The tasks the references point to.
pub open spec fn apontadas(v: Seq<&Todo>) -> Seq<Todo> {
    Seq::new(v.len(), |i: int| *v[i])
}

/// `v` in the order `k`, stable.
pub fn ordenar<'a>(v: Vec<&'a Todo>, k: SortKey, cats: &Vec<Category>) -> (r: Vec<&'a Todo>)
    ensures
        apontadas(r@) == ordenada(apontadas(v@), k, cats@),
{
    let mut out: Vec<&'a Todo> = Vec::new();
    let mut i: usize = 0;
    while i < v.len()
        invariant
            i <= v@.len(),
            apontadas(out@) == ordenada(apontadas(v@).take(i as int), k, cats@),
        decreases v@.len() - i,
    {
        let x = v[i];
        let mut p: usize = 0;
        while p < out.len() && !vem_antes(k, cats, x, out[p])
            invariant
                p <= out@.len(),
                forall|j: int| 0 <= j < p ==> !antes(k, cats@, *x, #[trigger] apontadas(out@)[j]),
            decreases out@.len() - p,
        {
            p = p + 1;
        }
        let ghost t = apontadas(out@);
        proof {
            lemma_inserida(t, *x, k, cats@, p as int);
            assert(apontadas(v@).take(i + 1).drop_last() =~= apontadas(v@).take(i as int));
            assert(apontadas(v@).take(i + 1).last() == *x);
        }
        out.insert(p, x);
        assert(apontadas(out@) =~= t.take(p as int) + seq![*x] + t.skip(p as int));
        i = i + 1;
    }
    assert(apontadas(v@).take(v@.len() as int) =~= apontadas(v@));
    out
}

// ------------------------------------------------------------ the search

/// The category filter of the list, beside the filter of the state.
#[derive(Debug, Clone, PartialEq, Eq)]
pub enum CategoryFilter {
    /// Every task.
    Todas,
    /// The tasks without a category.
    SemCategoria,
    /// The tasks of one category.
    Uma(CategoryId),
}

impl CategoryFilter {
    /// The category filtered, if one is.
    pub fn id(&self) -> (r: Option<&CategoryId>)
        ensures
            match *self {
                CategoryFilter::Uma(c) => r == Some(&c),
                _ => r is None,
            },
    {
        match self {
            CategoryFilter::Uma(c) => Some(c),
            _ => None,
        }
    }
}

/// The category filter lets `todo` through.
pub open spec fn da_categoria(todo: Todo, cf: CategoryFilter) -> bool {
    match cf {
        CategoryFilter::Todas => true,
        CategoryFilter::SemCategoria => todo.category_id is None,
        CategoryFilter::Uma(id) => todo.category_id matches Some(c) && c@ == id@,
    }
}

/// `t` is found in the title or the description of `todo`, in lower case on
/// both sides; an empty search finds every task.
pub open spec fn corresponde(todo: Todo, q: Seq<char>) -> bool {
    q.len() == 0 || ocorrencia_desde(minusculas(todo.title@), minusculas(q), 0) is Some
        || ocorrencia_desde(minusculas(todo.description@), minusculas(q), 0) is Some
}

/// The tasks of `s` of the category filter `cf` that the search `q` finds,
/// in order.
pub open spec fn buscadas(s: Seq<Todo>, cf: CategoryFilter, q: Seq<char>) -> Seq<Todo>
    decreases s.len(),
{
    if s.len() == 0 {
        s
    } else if da_categoria(s.last(), cf) && corresponde(s.last(), q) {
        buscadas(s.drop_last(), cf, q).push(s.last())
    } else {
        buscadas(s.drop_last(), cf, q)
    }
}

/// Whether the search `q` finds `todo`.
pub fn corresponde_a(todo: &Todo, q: &str) -> (r: bool)
    ensures
        r == corresponde(*todo, q@),
{
    if q.is_empty() {
        return true;
    }
    let alvo = caracteres(para_minusculas(q).as_str());
    if encontrar(&caracteres(para_minusculas(todo.title.as_str()).as_str()), &alvo).is_some() {
        return true;
    }
    encontrar(&caracteres(para_minusculas(todo.description.as_str()).as_str()), &alvo).is_some()
}

/// Whether the category filter lets `todo` through.
pub fn passa_no_filtro(todo: &Todo, cf: &CategoryFilter) -> (r: bool)
    ensures
        r == da_categoria(*todo, *cf),
{
    match cf {
        CategoryFilter::Todas => true,
        CategoryFilter::SemCategoria => todo.category_id.is_none(),
        CategoryFilter::Uma(id) => match &todo.category_id {
            Some(c) => c.igual(id),
            None => false,
        },
    }
}

/// Neither an empty search nor the filter of every category hides a task.
proof fn lemma_busca_vazia(s: Seq<Todo>, q: Seq<char>)
    requires
        q.len() == 0,
    ensures
        buscadas(s, CategoryFilter::Todas, q) == s,
    decreases s.len(),
{
    if s.len() > 0 {
        lemma_busca_vazia(s.drop_last(), q);
        assert(buscadas(s.drop_last(), CategoryFilter::Todas, q).push(s.last()) =~= s);
    }
}

/// No two tasks of `s` are out of the order `k`: none goes strictly before
/// one that comes earlier.
pub open spec fn em_ordem(s: Seq<Todo>, k: SortKey, cats: Seq<Category>) -> bool {
    forall|i: int, j: int| 0 <= i < j < s.len() ==> !antes(k, cats, #[trigger] s[j], #[trigger] s[i])
}

/// Every order is strict: never both ways, and transitive.
proof fn lemma_antes_estrita(k: SortKey, cats: Seq<Category>, a: Todo, b: Todo, c: Todo)
    ensures
        !(antes(k, cats, a, b) && antes(k, cats, b, a)),
        antes(k, cats, a, b) && antes(k, cats, b, c) ==> antes(k, cats, a, c),
{
}

/// What `inserida` holds: `x` and the tasks of `t`, once each.
proof fn lemma_inserida_multiconjunto(t: Seq<Todo>, x: Todo, k: SortKey, cats: Seq<Category>)
    ensures
        inserida(t, x, k, cats).to_multiset() == t.to_multiset().insert(x),
        forall|e: Todo| #[trigger] inserida(t, x, k, cats).contains(e) ==> e == x || t.contains(e),
    decreases t.len(),
{
    broadcast use vstd::seq_lib::group_to_multiset_ensures;

    if t.len() == 0 {
        assert(inserida(t, x, k, cats) =~= t.insert(0, x));
    } else if antes(k, cats, x, t[0]) {
        assert(inserida(t, x, k, cats) =~= t.insert(0, x));
    } else {
        let r = t.drop_first();
        lemma_inserida_multiconjunto(r, x, k, cats);
        let ri = inserida(r, x, k, cats);
        assert(inserida(t, x, k, cats) =~= ri.insert(0, t[0]));
        assert(t =~= r.insert(0, t[0]));
        assert forall|e: Todo| #[trigger] inserida(t, x, k, cats).contains(e) implies e == x || t.contains(e) by {
            let i = choose|i: int| 0 <= i < inserida(t, x, k, cats).len() && inserida(t, x, k, cats)[i] == e;
            if i > 0 {
                assert(ri[i - 1] == e);
                assert(ri.contains(e));
                if r.contains(e) {
                    let j = choose|j: int| 0 <= j < r.len() && r[j] == e;
                    assert(t[j + 1] == e);
                }
            }
        }
    }
}

/// Putting a task into a list in order keeps it in order.
proof fn lemma_inserida_em_ordem(t: Seq<Todo>, x: Todo, k: SortKey, cats: Seq<Category>)
    requires
        em_ordem(t, k, cats),
    ensures
        em_ordem(inserida(t, x, k, cats), k, cats),
    decreases t.len(),
{
    if t.len() == 0 {
    } else if antes(k, cats, x, t[0]) {
        let n = inserida(t, x, k, cats);
        assert forall|i: int, j: int| 0 <= i < j < n.len() implies !antes(k, cats, #[trigger] n[j], #[trigger] n[i]) by {
            if i == 0 {
                lemma_antes_estrita(k, cats, n[j], x, t[0]);
                if j > 1 {
                    assert(!antes(k, cats, t[j - 1], t[0]));
                }
            } else {
                assert(n[i] == t[i - 1] && n[j] == t[j - 1]);
            }
        }
    } else {
        let r = t.drop_first();
        assert(em_ordem(r, k, cats)) by {
            assert forall|i: int, j: int| 0 <= i < j < r.len() implies !antes(k, cats, #[trigger] r[j], #[trigger] r[i]) by {
                assert(r[i] == t[i + 1] && r[j] == t[j + 1]);
            }
        }
        lemma_inserida_em_ordem(r, x, k, cats);
        lemma_inserida_multiconjunto(r, x, k, cats);
        let ri = inserida(r, x, k, cats);
        let n = inserida(t, x, k, cats);
        assert(n == seq![t[0]] + ri);
        assert forall|i: int, j: int| 0 <= i < j < n.len() implies !antes(k, cats, #[trigger] n[j], #[trigger] n[i]) by {
            if i == 0 {
                assert(n[j] == ri[j - 1]);
                assert(ri.contains(ri[j - 1]));
                if r.contains(n[j]) {
                    let q = choose|q: int| 0 <= q < r.len() && r[q] == n[j];
                    assert(t[q + 1] == n[j]);
                    assert(!antes(k, cats, t[q + 1], t[0]));
                }
            } else {
                assert(n[i] == ri[i - 1] && n[j] == ri[j - 1]);
            }
        }
    }
}

/// Ordering a view loses no task and adds none, and leaves it in order:
/// the tasks shown are those of the filter, each once, and no task comes
/// after one it goes before.
pub proof fn lei_ordenar(s: Seq<Todo>, k: SortKey, cats: Seq<Category>)
    ensures
        ordenada(s, k, cats).to_multiset() == s.to_multiset(),
        em_ordem(ordenada(s, k, cats), k, cats),
    decreases s.len(),
{
    broadcast use vstd::seq_lib::group_to_multiset_ensures;

    if s.len() > 0 {
        lei_ordenar(s.drop_last(), k, cats);
        lemma_inserida_multiconjunto(ordenada(s.drop_last(), k, cats), s.last(), k, cats);
        lemma_inserida_em_ordem(ordenada(s.drop_last(), k, cats), s.last(), k, cats);
        assert(s.drop_last().push(s.last()) =~= s);
    }
}

proof fn lemma_indice_da_categoria(cats: Seq<Category>, id: Seq<char>)
    ensures
        indice_da_categoria(cats, id) <= cats.len(),
        indice_da_categoria(cats, id) < cats.len() ==> crate::dominio::ops::e_primeira_categoria(
            cats,
            id,
            indice_da_categoria(cats, id) as int,
        ),
        forall|p: int| crate::dominio::ops::e_primeira_categoria(cats, id, p) ==> indice_da_categoria(cats, id) == p,
    decreases cats.len(),
{
    if cats.len() > 0 {
        let d = cats.drop_first();
        lemma_indice_da_categoria(d, id);
        if cats[0].id@ != id {
            let n = indice_da_categoria(d, id) as int;
            if n < d.len() {
                assert forall|k: int| 0 <= k < n + 1 implies (#[trigger] cats[k]).id@ != id by {
                    if k > 0 {
                        assert(cats[k] == d[k - 1]);
                    }
                }
                assert(cats[n + 1] == d[n]);
            }
            assert forall|p: int| crate::dominio::ops::e_primeira_categoria(cats, id, p) implies indice_da_categoria(
                cats,
                id,
            ) == p by {
                assert(p > 0);
                assert forall|k: int| 0 <= k < p - 1 implies (#[trigger] d[k]).id@ != id by {
                    assert(d[k] == cats[k + 1]);
                }
                assert(d[p - 1] == cats[p]);
                assert(crate::dominio::ops::e_primeira_categoria(d, id, p - 1));
            }
        }
    }
}

/// Under the order by category, the categories come in the order they were
/// created and the tasks without one (or with one that is not there) last:
/// when the later task `j` has the category first created at position `p`,
/// the earlier task `i` has a category first created at `p` or before.
pub proof fn lei_vista_por_categoria(f: Filter, cf: CategoryFilter, q: Seq<char>, db: Db, i: int, j: int, p: int)
    requires
        f != Filter::Trash,
        0 <= i < j < vista_buscada(f, SortKey::Category, cf, q, db).len(),
    ensures
        ({
            let cats = db.categories@;
            let a = vista_buscada(f, SortKey::Category, cf, q, db)[i];
            let b = vista_buscada(f, SortKey::Category, cf, q, db)[j];
            b.category_id matches Some(cb) && crate::dominio::ops::e_primeira_categoria(cats, cb@, p) ==> (
            a.category_id matches Some(ca) && exists|p1: int|
                p1 <= p && #[trigger] crate::dominio::ops::e_primeira_categoria(cats, ca@, p1))
        }),
{
    let cats = db.categories@;
    lei_vista_em_ordem(f, SortKey::Category, cf, q, db, i, j);
    let a = vista_buscada(f, SortKey::Category, cf, q, db)[i];
    let b = vista_buscada(f, SortKey::Category, cf, q, db)[j];
    if let Some(cb) = b.category_id {
        if crate::dominio::ops::e_primeira_categoria(cats, cb@, p) {
            lemma_indice_da_categoria(cats, cb@);
            if let Some(ca) = a.category_id {
                lemma_indice_da_categoria(cats, ca@);
                let p1 = indice_da_categoria(cats, ca@) as int;
                assert(crate::dominio::ops::e_primeira_categoria(cats, ca@, p1));
            }
        }
    }
}

/// A view of the list comes in the order chosen, for any two of its tasks,
/// the earlier one at `i` and the later at `j`:
/// - by priority, a higher priority never comes after a lower one;
/// - by status, a pending task never comes after a done one;
/// - by due date, a task without one never comes before one with one, and
///   the due dates never go back in the calendar (the year first, then the
///   month, then the day);
/// - by category, the categories come in the order they were created, and
///   the tasks without one last;
/// - oldest first, the creation instants never go back; newest first, they
///   never go forward.
pub proof fn lei_vista_em_ordem(f: Filter, k: SortKey, cf: CategoryFilter, q: Seq<char>, db: Db, i: int, j: int)
    requires
        f != Filter::Trash,
        0 <= i < j < vista_buscada(f, k, cf, q, db).len(),
    ensures
        ({
            let a = vista_buscada(f, k, cf, q, db)[i];
            let b = vista_buscada(f, k, cf, q, db)[j];
            &&& k == SortKey::Priority ==> (b.priority == Priority::High ==> a.priority == Priority::High)
                && (a.priority == Priority::Low ==> b.priority == Priority::Low)
            &&& k == SortKey::Status ==> (a.done ==> b.done)
            &&& k == SortKey::Due ==> match (a.due_at, b.due_at) {
                (Some(x), Some(y)) => x.ano < y.ano || (x.ano == y.ano && (x.mes < y.mes || (x.mes == y.mes
                    && x.dia <= y.dia))),
                (None, Some(_)) => false,
                _ => true,
            }
            &&& k == SortKey::Category ==> lugar_da_categoria(db.categories@, a) <= lugar_da_categoria(
                db.categories@,
                b,
            )
            &&& k == SortKey::Oldest ==> a.created_at.segundos < b.created_at.segundos || (
            a.created_at.segundos == b.created_at.segundos && a.created_at.nanos <= b.created_at.nanos)
            &&& k == SortKey::Newest ==> b.created_at.segundos < a.created_at.segundos || (
            b.created_at.segundos == a.created_at.segundos && b.created_at.nanos <= a.created_at.nanos)
        }),
{
    let s = buscadas(vista(f, db.todos@, db.trash@), cf, q);
    lei_ordenar(s, k, db.categories@);
    let v = vista_buscada(f, k, cf, q, db);
    assert(v == ordenada(s, k, db.categories@));
    assert(!antes(k, db.categories@, v[j], v[i]));
}

/// What a view shows of a database: the trash newest removal first
/// (neither searched, filtered nor ordered), or the tasks of the filter `f`
/// and of the category filter `cf` that the search `q` finds, in the order
/// `k`.
pub open spec fn vista_buscada(f: Filter, k: SortKey, cf: CategoryFilter, q: Seq<char>, db: Db) -> Seq<Todo> {
    match f {
        Filter::Trash => lixo_recente_primeiro(db.trash@),
        _ => ordenada(buscadas(vista(f, db.todos@, db.trash@), cf, q), k, db.categories@),
    }
}

/// Neither an empty search nor the filter of every category hides a task:
/// the view is the filter's, in the order chosen.
pub proof fn lei_busca_vazia(f: Filter, k: SortKey, q: Seq<char>, db: Db)
    requires
        q.len() == 0,
        f != Filter::Trash,
    ensures
        vista_buscada(f, k, CategoryFilter::Todas, q, db) == ordenada(
            vista(f, db.todos@, db.trash@),
            k,
            db.categories@,
        ),
{
    lemma_busca_vazia(vista(f, db.todos@, db.trash@), q);
}

/// `s` and `t` differ at most in what no filter looks at: they have the same
/// length, and each task has the state and the category of the task at the
/// same place in the other.
pub open spec fn parecidas(s: Seq<Todo>, t: Seq<Todo>) -> bool {
    &&& s.len() == t.len()
    &&& forall|i: int|
        0 <= i < s.len() ==> (#[trigger] s[i]).done == t[i].done && s[i].category_id == t[i].category_id
}

proof fn lemma_parecidas_sem_a_ultima(s: Seq<Todo>, t: Seq<Todo>)
    requires
        parecidas(s, t),
        s.len() > 0,
    ensures
        parecidas(s.drop_last(), t.drop_last()),
{
    assert forall|i: int| 0 <= i < s.len() - 1 implies (#[trigger] s.drop_last()[i]).done == t.drop_last()[i].done
        && s.drop_last()[i].category_id == t.drop_last()[i].category_id by {
        assert(s.drop_last()[i] == s[i]);
        assert(t.drop_last()[i] == t[i]);
    }
}

proof fn lemma_parecidas_mais_uma(s: Seq<Todo>, t: Seq<Todo>, x: Todo, y: Todo)
    requires
        parecidas(s, t),
        x.done == y.done,
        x.category_id == y.category_id,
    ensures
        parecidas(s.push(x), t.push(y)),
{
    assert forall|i: int| 0 <= i < s.len() + 1 implies (#[trigger] s.push(x)[i]).done == t.push(y)[i].done
        && s.push(x)[i].category_id == t.push(y)[i].category_id by {
        if i < s.len() {
            assert(s.push(x)[i] == s[i]);
            assert(t.push(y)[i] == t[i]);
        }
    }
}

/// Filtering two lists that differ only where no filter looks gives two
/// lists that differ only there.
proof fn lemma_filtros_parecidos(s: Seq<Todo>, t: Seq<Todo>, cf: CategoryFilter, q: Seq<char>)
    requires
        parecidas(s, t),
        q.len() == 0,
    ensures
        parecidas(pendentes_de(s), pendentes_de(t)),
        parecidas(concluidas_de(s), concluidas_de(t)),
        parecidas(buscadas(s, cf, q), buscadas(t, cf, q)),
    decreases s.len(),
{
    if s.len() > 0 {
        lemma_parecidas_sem_a_ultima(s, t);
        lemma_filtros_parecidos(s.drop_last(), t.drop_last(), cf, q);
        assert(s.last() == s[s.len() - 1] && t.last() == t[t.len() - 1]);
        if !s.last().done {
            lemma_parecidas_mais_uma(pendentes_de(s.drop_last()), pendentes_de(t.drop_last()), s.last(), t.last());
        } else {
            lemma_parecidas_mais_uma(concluidas_de(s.drop_last()), concluidas_de(t.drop_last()), s.last(), t.last());
        }
        if da_categoria(s.last(), cf) {
            lemma_parecidas_mais_uma(
                buscadas(s.drop_last(), cf, q),
                buscadas(t.drop_last(), cf, q),
                s.last(),
                t.last(),
            );
        }
    }
}

/// Without a search, a view counts as many tasks for two lists that differ
/// only where no filter looks: a change of title or description moves a
/// task in the order, but never in or out of the view.
pub proof fn lemma_vista_do_mesmo_tamanho(f: Filter, k: SortKey, cf: CategoryFilter, q: Seq<char>, a: Db, b: Db)
    requires
        parecidas(a.todos@, b.todos@),
        a.trash@.len() == b.trash@.len(),
        q.len() == 0,
    ensures
        vista_buscada(f, k, cf, q, a).len() == vista_buscada(f, k, cf, q, b).len(),
{
    broadcast use vstd::seq_lib::group_to_multiset_ensures;

    lemma_filtros_parecidos(a.todos@, b.todos@, cf, q);
    if f != Filter::Trash {
        let va = vista(f, a.todos@, a.trash@);
        let vb = vista(f, b.todos@, b.trash@);
        assert(parecidas(va, vb));
        lemma_filtros_parecidos(va, vb, cf, q);
        let ba = buscadas(va, cf, q);
        let bb = buscadas(vb, cf, q);
        lei_ordenar(ba, k, a.categories@);
        lei_ordenar(bb, k, b.categories@);
        assert(ordenada(ba, k, a.categories@).len() == ordenada(ba, k, a.categories@).to_multiset().len());
        assert(ba.len() == ba.to_multiset().len());
        assert(ordenada(bb, k, b.categories@).len() == ordenada(bb, k, b.categories@).to_multiset().len());
        assert(bb.len() == bb.to_multiset().len());
    } else {
        assert(lixo_recente_primeiro(a.trash@).len() == a.trash@.len());
        assert(lixo_recente_primeiro(b.trash@).len() == b.trash@.len());
    }
}

/// The categories change only the order of a view, never how many tasks it
/// has.
pub proof fn lemma_vista_com_as_mesmas_tarefas(f: Filter, k: SortKey, cf: CategoryFilter, q: Seq<char>, a: Db, b: Db)
    requires
        a.todos@ == b.todos@,
        a.trash@ == b.trash@,
    ensures
        vista_buscada(f, k, cf, q, a).len() == vista_buscada(f, k, cf, q, b).len(),
{
    broadcast use vstd::seq_lib::group_to_multiset_ensures;

    if f != Filter::Trash {
        let x = buscadas(vista(f, a.todos@, a.trash@), cf, q);
        assert(x == buscadas(vista(f, b.todos@, b.trash@), cf, q));
        lei_ordenar(x, k, a.categories@);
        lei_ordenar(x, k, b.categories@);
        assert(ordenada(x, k, a.categories@).len() == ordenada(x, k, a.categories@).to_multiset().len());
        assert(ordenada(x, k, b.categories@).len() == ordenada(x, k, b.categories@).to_multiset().len());
    }
}

proof fn lemma_pendentes_concluidas_len(s: Seq<Todo>)
    ensures
        pendentes_de(s).len() + concluidas_de(s).len() == s.len(),
    decreases s.len(),
{
    if s.len() > 0 {
        lemma_pendentes_concluidas_len(s.drop_last());
    }
}

impl Store {
    pub fn counts(&self) -> (r: Counts)
        ensures
            r.active == pendentes_de(self.dados().todos@).len(),
            r.done == concluidas_de(self.dados().todos@).len(),
            r.trash == self.dados().trash@.len(),
            r.active + r.done == self.dados().todos@.len(),
    {
        let todos = self.todos();
        let mut active: usize = 0;
        let mut done: usize = 0;
        let mut i: usize = 0;
        while i < todos.len()
            invariant
                0 <= i <= todos@.len(),
                active == pendentes_de(todos@.subrange(0, i as int)).len(),
                done == concluidas_de(todos@.subrange(0, i as int)).len(),
                active + done == i,
            decreases todos@.len() - i,
        {
            assert(todos@.subrange(0, i + 1).drop_last() =~= todos@.subrange(0, i as int));
            proof {
                lemma_pendentes_concluidas_len(todos@.subrange(0, i as int));
            }
            if todos[i].is_done() {
                done = done + 1;
            } else {
                active = active + 1;
            }
            i = i + 1;
        }
        assert(todos@.subrange(0, todos@.len() as int) =~= todos@);
        Counts { active, done, trash: self.trash_len() }
    }

    /// The tasks of the view, in natural (insertion) order; the trash view
    /// shows the newest removal first.
    pub fn filtered(&self, filter: Filter) -> (r: Vec<&Todo>)
        ensures
            r@.len() == vista(filter, self.dados().todos@, self.dados().trash@).len(),
            forall|i: int|
                0 <= i < r@.len() ==> *(#[trigger] r@[i]) == vista(
                    filter,
                    self.dados().todos@,
                    self.dados().trash@,
                )[i],
    {
        let mut out: Vec<&Todo> = Vec::new();
        match filter {
            Filter::Trash => {
                let trash = &self.db().trash;
                let n = trash.len();
                let mut k: usize = n;
                while k > 0
                    invariant
                        0 <= k <= n,
                        n == trash@.len(),
                        trash@ == self.dados().trash@,
                        out@.len() == n - k,
                        forall|i: int|
                            0 <= i < out@.len() ==> *(#[trigger] out@[i]) == trash@[n - 1 - i].todo,
                    decreases k,
                {
                    k = k - 1;
                    out.push(&trash[k].todo);
                }
            },
            _ => {
                let todos = self.todos();
                let mut i: usize = 0;
                while i < todos.len()
                    invariant
                        0 <= i <= todos@.len(),
                        todos@ == self.dados().todos@,
                        filter != Filter::Trash,
                        out@.len() == vista(filter, todos@.subrange(0, i as int), seq![]).len(),
                        forall|q: int|
                            0 <= q < out@.len() ==> *(#[trigger] out@[q]) == vista(
                                filter,
                                todos@.subrange(0, i as int),
                                seq![],
                            )[q],
                    decreases todos@.len() - i,
                {
                    assert(todos@.subrange(0, i + 1).drop_last() =~= todos@.subrange(0, i as int));
                    let entra = match filter {
                        Filter::Active => !todos[i].done,
                        Filter::Done => todos[i].done,
                        _ => true,
                    };
                    if entra {
                        out.push(&todos[i]);
                    }
                    i = i + 1;
                }
                assert(todos@.subrange(0, todos@.len() as int) =~= todos@);
            },
        }
        out
    }

    /// The tasks of the view `filter` and of the category filter `categoria`
    /// that the search `query` finds, in the order `sort`; the trash view
    /// shows the newest removal first.
    pub fn view(&self, filter: Filter, sort: SortKey, categoria: &CategoryFilter, query: &str) -> (r: Vec<&Todo>)
        ensures
            r@.len() == vista_buscada(filter, sort, *categoria, query@, self.dados()).len(),
            forall|i: int|
                0 <= i < r@.len() ==> *(#[trigger] r@[i]) == vista_buscada(
                    filter,
                    sort,
                    *categoria,
                    query@,
                    self.dados(),
                )[i],
    {
        let todas = self.filtered(filter);
        if filter == Filter::Trash {
            return todas;
        }
        let ghost base = vista(filter, self.dados().todos@, self.dados().trash@);
        assert(apontadas(todas@) =~= base);
        let mut achadas: Vec<&Todo> = Vec::new();
        let mut i: usize = 0;
        while i < todas.len()
            invariant
                i <= todas@.len(),
                apontadas(todas@) == base,
                apontadas(achadas@) == buscadas(base.take(i as int), *categoria, query@),
            decreases todas@.len() - i,
        {
            let t = todas[i];
            let ghost antes_de = apontadas(achadas@);
            proof {
                assert(base.take(i + 1).drop_last() =~= base.take(i as int));
                assert(base.take(i + 1).last() == *t);
            }
            if passa_no_filtro(t, categoria) && corresponde_a(t, query) {
                achadas.push(t);
                assert(apontadas(achadas@) =~= antes_de.push(*t));
            }
            i = i + 1;
        }
        assert(base.take(todas@.len() as int) =~= base);
        let r = ordenar(achadas, sort, self.categories());
        proof {
            let w = vista_buscada(filter, sort, *categoria, query@, self.dados());
            assert forall|i: int| 0 <= i < r@.len() implies *(#[trigger] r@[i]) == w[i] by {
                assert(apontadas(r@)[i] == *r@[i]);
            }
        }
        r
    }

    /// The trash entries, newest first: the order in which the trash view
    /// shows them and undo takes them.
    pub fn trash_entries(&self) -> (r: Vec<&Trashed>)
        ensures
            r@.len() == self.dados().trash@.len(),
            forall|i: int|
                0 <= i < r@.len() ==> *(#[trigger] r@[i]) == self.dados().trash@[self.dados().trash@.len()
                    - 1 - i],
    {
        let trash = &self.db().trash;
        let n = trash.len();
        let mut out: Vec<&Trashed> = Vec::new();
        let mut k: usize = n;
        while k > 0
            invariant
                0 <= k <= n,
                n == trash@.len(),
                out@.len() == n - k,
                forall|i: int| 0 <= i < out@.len() ==> *(#[trigger] out@[i]) == trash@[n - 1 - i],
            decreases k,
        {
            k = k - 1;
            out.push(&trash[k]);
        }
        out
    }
}

} // verus!
