//! The names of the files that sit beside the database: the temporary file
//! of an atomic write (`db.json.tmp`) and the previous generation
//! (`db.json.bak`). Both live in the same directory as the target, because a
//! `rename` across file systems is not atomic.

use vstd::prelude::*;

verus! {

/// The last component of `p`, as `Path::file_name` gives it.
pub uninterp spec fn nome_de_ficheiro(p: Seq<char>) -> Option<Seq<char>>;

/// `Path::with_file_name(p, n)`.
pub uninterp spec fn caminho_com_nome(p: Seq<char>, n: Seq<char>) -> Seq<char>;

/// `Path::with_extension(p, e)`.
pub uninterp spec fn caminho_com_extensao(p: Seq<char>, e: Seq<char>) -> Seq<char>;

/// `Path::join(p, c)`.
pub uninterp spec fn caminho_junto(p: Seq<char>, c: Seq<char>) -> Seq<char>;

/// `Path::file_name`: the last component of the path, if it has one (`/`
/// and `..` have none).
#[verifier::external_body]
pub fn nome_do_ficheiro(p: &str) -> (r: Option<String>)
    ensures
        r matches Some(n) ==> nome_de_ficheiro(p@) == Some(n@),
        r is None ==> nome_de_ficheiro(p@) is None,
{
    std::path::Path::new(p).file_name().map(|n| n.to_string_lossy().into_owned())
}

/// A name that `Path::push` adds as one normal component: not empty,
/// without a separator, and neither `.` nor `..`.
pub open spec fn nome_simples(n: Seq<char>) -> bool {
    n.len() > 0 && sem_separador(n) && n != "."@ && n != ".."@
}

/// `Path::with_file_name`: the path with its last component replaced (when
/// it has none, `n` is pushed). As `PathBuf::set_file_name` documents, a
/// simple name `n` is then the file name of the result.
#[verifier::external_body]
pub fn com_nome(p: &str, n: &str) -> (r: String)
    ensures
        r@ == caminho_com_nome(p@, n@),
        nome_simples(n@) ==> nome_de_ficheiro(r@) == Some(n@),
{
    std::path::Path::new(p).with_file_name(n).to_string_lossy().into_owned()
}

/// No character of `s` is the path separator `/`.
pub open spec fn sem_separador(s: Seq<char>) -> bool {
    forall|i: int| 0 <= i < s.len() ==> s[i] != '/'
}

/// `Path::with_extension`: the path with its extension replaced. It panics
/// when the extension holds a path separator, which `requires` leaves out.
#[verifier::external_body]
fn com_extensao(p: &str, e: &str) -> (r: String)
    requires
        sem_separador(e@),
    ensures
        r@ == caminho_com_extensao(p@, e@),
{
    std::path::Path::new(p).with_extension(e).to_string_lossy().into_owned()
}

/// `Path::join`: `c` appended to `p` as a further component. As
/// `PathBuf::push` documents, a relative `c` extends a `p` that does not end
/// with a separator after one, and an absolute `c` replaces `p`.
#[verifier::external_body]
pub fn juntar_caminho(p: &str, c: &str) -> (r: String)
    ensures
        r@ == caminho_junto(p@, c@),
        c@.len() > 0 && c@[0] != '/' && p@.len() > 0 && p@.last() != '/' ==> r@ == p@ + "/"@ + c@,
        c@.len() > 0 && c@[0] == '/' ==> r@ == c@,
{
    std::path::Path::new(p).join(c).to_string_lossy().into_owned()
}

/// The path with `.suffix` added to its file name, in the same directory
/// (`/a/b.json` + `tmp` gives `/a/b.json.tmp`); a path without a file name
/// gets the suffix as its extension.
pub open spec fn com_sufixo(p: Seq<char>, sufixo: Seq<char>) -> Seq<char> {
    match nome_de_ficheiro(p) {
        Some(n) => caminho_com_nome(p, n + "."@ + sufixo),
        None => caminho_com_extensao(p, sufixo),
    }
}

fn with_suffix(path: &str, suffix: &str) -> (r: String)
    requires
        sem_separador(suffix@),
        suffix@.len() > 0,
        suffix@.last() != '.',
    ensures
        r@ == com_sufixo(path@, suffix@),
        nome_de_ficheiro(path@) matches Some(n) ==> sem_separador(n) ==> nome_de_ficheiro(r@) == Some(
            n + "."@ + suffix@,
        ) && r@ != path@,
{
    match nome_do_ficheiro(path) {
        Some(nome) => {
            let ghost n = nome@;
            let mut com_sufixo = nome;
            com_sufixo.append(".");
            com_sufixo.append(suffix);
            proof {
                reveal_strlit(".");
                reveal_strlit("..");
                let s = com_sufixo@;
                assert(s == n + "."@ + suffix@);
                assert(s.last() == suffix@.last());
                assert(s.len() >= 2);
                if sem_separador(n) {
                    assert forall|i: int| 0 <= i < s.len() implies s[i] != '/' by {
                        if i < n.len() {
                            assert(s[i] == n[i]);
                        } else if i > n.len() {
                            assert(s[i] == suffix@[i - n.len() - 1]);
                        }
                    }
                    assert(s != "."@);
                    assert(s != ".."@);
                }
            }
            let r = com_nome(path, com_sufixo.as_str());
            proof {
                if sem_separador(n) {
                    assert(nome_de_ficheiro(r@) != nome_de_ficheiro(path@));
                }
            }
            r
        },
        None => com_extensao(path, suffix),
    }
}

/// Name of the temporary file of `path` (`db.json` gives `db.json.tmp`).
pub fn tmp_path_for(path: &str) -> (r: String)
    ensures
        r@ == com_sufixo(path@, "tmp"@),
        nome_de_ficheiro(path@) matches Some(n) ==> sem_separador(n) ==> nome_de_ficheiro(r@) == Some(
            n + ".tmp"@,
        ) && r@ != path@,
{
    proof {
        reveal_strlit("tmp");
        reveal_strlit(".tmp");
        reveal_strlit(".");
        assert("."@ + "tmp"@ =~= ".tmp"@);
        assert forall|n: Seq<char>| n + "."@ + "tmp"@ =~= n + ".tmp"@ by {}
    }
    with_suffix(path, "tmp")
}

/// Name of the backup of `path` (`db.json` gives `db.json.bak`), where the
/// previous generation is kept.
pub fn backup_path_for(path: &str) -> (r: String)
    ensures
        r@ == com_sufixo(path@, "bak"@),
        nome_de_ficheiro(path@) matches Some(n) ==> sem_separador(n) ==> nome_de_ficheiro(r@) == Some(
            n + ".bak"@,
        ) && r@ != path@,
{
    proof {
        reveal_strlit("bak");
        reveal_strlit(".bak");
        reveal_strlit(".");
        assert("."@ + "bak"@ =~= ".bak"@);
        assert forall|n: Seq<char>| n + "."@ + "bak"@ =~= n + ".bak"@ by {}
    }
    with_suffix(path, "bak")
}

/// The position of the last `.` of `n`, if it has one.
pub open spec fn ultimo_ponto(n: Seq<char>) -> Option<int>
    decreases n.len(),
{
    if n.len() == 0 {
        None
    } else if n.last() == '.' {
        Some(n.len() - 1)
    } else {
        ultimo_ponto(n.drop_last())
    }
}

/// The extension of a file name, as `Path::extension` defines it: what
/// follows the last `.`, unless there is none or the name begins with its
/// only `.`.
pub open spec fn extensao_do_nome(n: Seq<char>) -> Option<Seq<char>> {
    match ultimo_ponto(n) {
        Some(i) => if i == 0 {
            None
        } else {
            Some(n.subrange(i + 1, n.len() as int))
        },
        None => None,
    }
}

/// `Path::extension`.
pub open spec fn extensao_de(p: Seq<char>) -> Option<Seq<char>> {
    match nome_de_ficheiro(p) {
        Some(n) => extensao_do_nome(n),
        None => None,
    }
}

/// The extension of the file name of `p`.
pub fn extensao(p: &str) -> (r: Option<String>)
    ensures
        match r {
            Some(e) => extensao_de(p@) == Some(e@),
            None => extensao_de(p@) is None,
        },
{
    let nome = match nome_do_ficheiro(p) {
        Some(n) => n,
        None => return None,
    };
    let v = crate::dominio::texto::caracteres(nome.as_str());
    let mut ponto: Option<usize> = None;
    let mut i: usize = 0;
    while i < v.len()
        invariant
            0 <= i <= v@.len(),
            v@ == nome@,
            match ponto {
                Some(k) => k < i && ultimo_ponto(v@.subrange(0, i as int)) == Some(k as int),
                None => ultimo_ponto(v@.subrange(0, i as int)) is None,
            },
        decreases v@.len() - i,
    {
        assert(v@.subrange(0, i + 1).drop_last() =~= v@.subrange(0, i as int));
        if v[i] == '.' {
            ponto = Some(i);
        }
        i = i + 1;
    }
    assert(v@.subrange(0, v@.len() as int) =~= v@);
    match ponto {
        Some(k) => {
            if k == 0 {
                None
            } else {
                let mut depois: Vec<char> = Vec::new();
                let mut j: usize = k + 1;
                while j < v.len()
                    invariant
                        k + 1 <= j <= v@.len(),
                        depois@ == v@.subrange(k + 1, j as int),
                    decreases v@.len() - j,
                {
                    depois.push(v[j]);
                    j = j + 1;
                    assert(depois@ =~= v@.subrange(k + 1, j as int));
                }
                Some(crate::dominio::texto::texto_de(&depois))
            }
        },
        None => None,
    }
}

} // verus!
