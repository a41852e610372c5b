//! Text helpers shared by the whole library: characters in and out of
//! `String`, the whitespace trim, ASCII lower case and decimal numbers.

use vstd::prelude::*;

verus! {

/// The characters of `s`, in order.
#[verifier::external_body]
pub fn caracteres(s: &str) -> (r: Vec<char>)
    ensures
        r@ == s@,
{
    s.chars().collect()
}

/// The string made of the characters of `v`, in order.
#[verifier::external_body]
pub fn texto_de(v: &Vec<char>) -> (r: String)
    ensures
        r@ == v@,
{
    v.iter().collect()
}

/// `String::push`: appends one character.
#[verifier::external_body]
pub fn empurrar(s: &mut String, c: char)
    ensures
        final(s)@ == old(s)@.push(c),
{
    s.push(c)
}

/// `char::from_u32`: the character with code `n`, when `n` is a Unicode
/// scalar value.
#[verifier::external_body]
pub fn caracter_de(n: u32) -> (r: Option<char>)
    ensures
        r is Some <==> (n <= 0x10FFFF && !(0xD800 <= n <= 0xDFFF)),
        r matches Some(c) ==> c as u32 == n && c == n as char,
{
    char::from_u32(n)
}

/// Unicode `White_Space`: what `char::is_whitespace` accepts.
pub open spec fn e_espaco(c: char) -> bool {
    let n = c as u32;
    ||| 0x09 <= n <= 0x0d
    ||| n == 0x20
    ||| n == 0x85
    ||| n == 0xa0
    ||| n == 0x1680
    ||| 0x2000 <= n <= 0x200a
    ||| n == 0x2028
    ||| n == 0x2029
    ||| n == 0x202f
    ||| n == 0x205f
    ||| n == 0x3000
}

/// `char::is_whitespace`.
pub fn espaco(c: char) -> (r: bool)
    ensures
        r == e_espaco(c),
{
    let n = c as u32;
    (0x09 <= n && n <= 0x0d) || n == 0x20 || n == 0x85 || n == 0xa0 || n == 0x1680 || (0x2000
        <= n && n <= 0x200a) || n == 0x2028 || n == 0x2029 || n == 0x202f || n == 0x205f || n
        == 0x3000
}

/// `s` without its leading whitespace.
pub open spec fn sem_espaco_inicial(s: Seq<char>) -> Seq<char>
    decreases s.len(),
{
    if s.len() > 0 && e_espaco(s[0]) {
        sem_espaco_inicial(s.drop_first())
    } else {
        s
    }
}

/// `s` without its trailing whitespace.
pub open spec fn sem_espaco_final(s: Seq<char>) -> Seq<char>
    decreases s.len(),
{
    if s.len() > 0 && e_espaco(s.last()) {
        sem_espaco_final(s.drop_last())
    } else {
        s
    }
}

/// What `str::trim` gives back: `s` without whitespace at either end.
pub open spec fn aparado(s: Seq<char>) -> Seq<char> {
    sem_espaco_final(sem_espaco_inicial(s))
}

/// The first index of `s` from `i` on that holds no whitespace.
proof fn lemma_inicio(s: Seq<char>, i: int)
    requires
        0 <= i <= s.len(),
        forall|k: int| 0 <= k < i ==> e_espaco(#[trigger] s[k]),
    ensures
        sem_espaco_inicial(s) == sem_espaco_inicial(s.subrange(i, s.len() as int)),
    decreases i,
{
    if i > 0 {
        assert(s.drop_first() == s.subrange(1, s.len() as int));
        lemma_inicio(s.drop_first(), i - 1);
        assert(s.drop_first().subrange(i - 1, s.drop_first().len() as int) =~= s.subrange(
            i,
            s.len() as int,
        ));
    } else {
        assert(s.subrange(0, s.len() as int) =~= s);
    }
}

proof fn lemma_fim(s: Seq<char>, j: int)
    requires
        0 <= j <= s.len(),
        forall|k: int| j <= k < s.len() ==> e_espaco(#[trigger] s[k]),
    ensures
        sem_espaco_final(s) == sem_espaco_final(s.subrange(0, j)),
    decreases s.len() - j,
{
    if j < s.len() {
        lemma_fim(s.drop_last(), j);
        assert(s.drop_last().subrange(0, j) =~= s.subrange(0, j));
    } else {
        assert(s.subrange(0, j) =~= s);
    }
}

/// `str::trim`.
pub fn aparar(s: &str) -> (r: String)
    ensures
        r@ == aparado(s@),
{
    let v = caracteres(s);
    let n = v.len();
    let mut i: usize = 0;
    while i < n && espaco(v[i])
        invariant
            0 <= i <= n,
            n == v@.len(),
            forall|k: int| 0 <= k < i ==> e_espaco(#[trigger] v@[k]),
        decreases n - i,
    {
        i = i + 1;
    }
    proof {
        lemma_inicio(v@, i as int);
    }
    let ghost meio = v@.subrange(i as int, n as int);
    assert(i < n ==> !e_espaco(meio[0]));
    assert(sem_espaco_inicial(meio) == meio);
    let mut j: usize = n;
    while j > i && espaco(v[j - 1])
        invariant
            i <= j <= n,
            n == v@.len(),
            forall|k: int| j <= k < n ==> e_espaco(#[trigger] v@[k]),
        decreases j,
    {
        j = j - 1;
    }
    proof {
        lemma_fim(meio, j - i);
        assert(meio.subrange(0, j - i) =~= v@.subrange(i as int, j as int));
        let fim = v@.subrange(i as int, j as int);
        assert(fim.len() > 0 ==> fim.last() == v@[j - 1]);
    }
    let mut out: Vec<char> = Vec::new();
    let mut k: usize = i;
    while k < j
        invariant
            i <= k <= j <= n,
            n == v@.len(),
            out@ == v@.subrange(i as int, k as int),
        decreases j - k,
    {
        out.push(v[k]);
        k = k + 1;
        assert(out@ =~= v@.subrange(i as int, k as int));
    }
    texto_de(&out)
}

/// ASCII lower case of one character (`char::to_ascii_lowercase`).
pub open spec fn minuscula_ascii(c: char) -> char {
    if 'A' <= c <= 'Z' {
        ((c as u32) + 32) as char
    } else {
        c
    }
}

/// `str::to_ascii_lowercase`.
pub open spec fn minusculas_ascii(s: Seq<char>) -> Seq<char> {
    s.map_values(|c: char| minuscula_ascii(c))
}

pub fn para_minuscula_ascii(c: char) -> (r: char)
    ensures
        r == minuscula_ascii(c),
{
    if 'A' <= c && c <= 'Z' {
        let n = (c as u32) + 32;
        caracter_de(n).unwrap()
    } else {
        c
    }
}

/// What `str::to_lowercase` gives for `s` (the full Unicode mapping).
pub uninterp spec fn minusculas(s: Seq<char>) -> Seq<char>;

/// Every character of `s` is ASCII.
pub open spec fn so_ascii(s: Seq<char>) -> bool {
    forall|i: int| 0 <= i < s.len() ==> (s[i] as u32) < 128
}

/// `str::to_lowercase`. The Unicode lower case of an ASCII character is its
/// ASCII lower case (std goes through `to_ascii_lowercase` for an ASCII
/// text), so on an ASCII text the result is stated exactly; on any other
/// it is named.
#[verifier::external_body]
pub fn para_minusculas(s: &str) -> (r: String)
    ensures
        r@ == minusculas(s@),
        so_ascii(s@) ==> r@ == minusculas_ascii(s@),
{
    s.to_lowercase()
}

/// The decimal digit for `d < 10`.
pub open spec fn digito(d: nat) -> char {
    (('0' as nat) + d) as char
}

/// The decimal digits of `n`, as `u64::to_string` writes them.
pub open spec fn decimal(n: nat) -> Seq<char>
    decreases n,
{
    if n < 10 {
        seq![digito(n)]
    } else {
        decimal(n / 10).push(digito(n % 10))
    }
}

fn escrever_decimal(n: u64, out: &mut Vec<char>)
    ensures
        final(out)@ == old(out)@ + decimal(n as nat),
    decreases n,
{
    if n >= 10 {
        escrever_decimal(n / 10, out);
    }
    let d = (n % 10) as u32;
    let c = caracter_de(48 + d).unwrap();
    assert(c == digito((n % 10) as nat));
    out.push(c);
    assert(final(out)@ =~= old(out)@ + decimal(n as nat));
}

/// `n.to_string()` for an unsigned integer.
pub fn em_decimal(n: u64) -> (r: String)
    ensures
        r@ == decimal(n as nat),
{
    let mut v: Vec<char> = Vec::new();
    escrever_decimal(n, &mut v);
    assert(v@ =~= decimal(n as nat));
    texto_de(&v)
}

/// Whether two strings hold the same characters.
pub fn iguais(a: &str, b: &str) -> (r: bool)
    ensures
        r == (a@ == b@),
{
    let x = caracteres(a);
    let y = caracteres(b);
    if x.len() != y.len() {
        assert(x@.len() != y@.len());
        return false;
    }
    let mut i: usize = 0;
    while i < x.len()
        invariant
            0 <= i <= x@.len(),
            x@.len() == y@.len(),
            x@ == a@,
            y@ == b@,
            forall|k: int| 0 <= k < i ==> x@[k] == y@[k],
        decreases x@.len() - i,
    {
        if x[i] != y[i] {
            return false;
        }
        i = i + 1;
    }
    assert(x@ =~= y@);
    true
}

/// The first position, from `i` on, where `p` occurs in `s` (what
/// `str::find` gives, counted in characters).
pub open spec fn ocorrencia_desde(s: Seq<char>, p: Seq<char>, i: int) -> Option<int>
    decreases s.len() + 1 - i,
{
    if i < 0 || i + p.len() > s.len() {
        None
    } else if s.subrange(i, i + p.len()) == p {
        Some(i)
    } else {
        ocorrencia_desde(s, p, i + 1)
    }
}

pub proof fn lemma_ocorrencia(s: Seq<char>, p: Seq<char>, i: int)
    requires
        0 <= i,
    ensures
        ocorrencia_desde(s, p, i) matches Some(k) ==> i <= k && k + p.len() <= s.len(),
    decreases s.len() + 1 - i,
{
    if i + p.len() <= s.len() && s.subrange(i, i + p.len()) != p {
        lemma_ocorrencia(s, p, i + 1);
    }
}

pub fn encontrar(s: &Vec<char>, p: &Vec<char>) -> (r: Option<usize>)
    ensures
        match r {
            Some(k) => ocorrencia_desde(s@, p@, 0) == Some(k as int),
            None => ocorrencia_desde(s@, p@, 0) is None,
        },
{
    let n = s.len();
    let m = p.len();
    if m > n {
        return None;
    }
    let mut i: usize = 0;
    while i <= n - m
        invariant
            n == s@.len(),
            m == p@.len(),
            m <= n,
            0 <= i <= n - m + 1,
            ocorrencia_desde(s@, p@, 0) == ocorrencia_desde(s@, p@, i as int),
        decreases n - i,
    {
        let mut igual = true;
        let mut k: usize = 0;
        while igual && k < m
            invariant
                i + m <= n,
                n == s@.len(),
                m == p@.len(),
                0 <= k <= m,
                igual ==> forall|q: int| 0 <= q < k ==> s@[i + q] == p@[q],
                !igual ==> exists|q: int| 0 <= q < k && s@[i + q] != p@[q],
            decreases m - k,
        {
            if s[i + k] != p[k] {
                igual = false;
            }
            k = k + 1;
        }
        if igual {
            assert(s@.subrange(i as int, i + m) =~= p@);
            return Some(i);
        } else {
            proof {
                let q = choose|q: int| 0 <= q < k && s@[i + q] != p@[q];
                assert(s@.subrange(i as int, i + m)[q] != p@[q]);
            }
        }
        i = i + 1;
    }
    None
}

} // verus!
