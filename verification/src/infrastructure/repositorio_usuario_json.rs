use vstd::prelude::*;

use crate::domain::entidades::usuario::Usuario;

verus! {

/// The players kept in a JSON file at `path`: this holds them in memory, in the order they were
/// saved; reading and writing the file is up to the caller.
pub struct RepositorioUsuarioJson {
    path: String,
    users: Vec<Usuario>,
}

/// The position of the first player in `s` that satisfies `p`, if any.
pub open spec fn primeiro(s: Seq<Usuario>, p: spec_fn(Usuario) -> bool) -> Option<int>
    decreases s.len(),
{
    if s.len() == 0 {
        None
    } else {
        match primeiro(s.drop_last(), p) {
            Some(i) => Some(i),
            None => if p(s.last()) {
                Some(s.len() - 1)
            } else {
                None
            },
        }
    }
}

/// The player of `s` that satisfies `p` first, if any.
pub open spec fn achado(s: Seq<Usuario>, p: spec_fn(Usuario) -> bool) -> Option<Usuario> {
    match primeiro(s, p) {
        Some(i) => Some(s[i]),
        None => None,
    }
}

/// `primeiro` finds a player that satisfies `p`, and none before it does.
pub proof fn lema_primeiro(s: Seq<Usuario>, p: spec_fn(Usuario) -> bool)
    ensures
        match primeiro(s, p) {
            Some(i) => 0 <= i < s.len() && p(s[i]) && forall|j: int| 0 <= j < i ==> !p(#[trigger] s[j]),
            None => forall|j: int| 0 <= j < s.len() ==> !p(#[trigger] s[j]),
        },
    decreases s.len(),
{
    if s.len() > 0 {
        let t = s.drop_last();
        lema_primeiro(t, p);
        assert forall|j: int| 0 <= j < t.len() implies #[trigger] t[j] == s[j] by {}
        assert(s.last() == s[s.len() - 1]);
        match primeiro(t, p) {
            Some(i) => {
                assert(primeiro(s, p) == Some(i));
                assert(p(s[i]));
                assert forall|j: int| 0 <= j < i implies !p(#[trigger] s[j]) by {
                    assert(s[j] == t[j]);
                }
            },
            None => {
                assert forall|j: int| 0 <= j < s.len() - 1 implies !p(#[trigger] s[j]) by {
                    assert(s[j] == t[j]);
                }
            },
        }
    }
}

/// Holds the player has the login `l`.
pub open spec fn com_login(l: Seq<char>) -> spec_fn(Usuario) -> bool {
    |u: Usuario| u.login@ == l
}

/// Holds the player has the id `id`.
pub open spec fn com_id(id: u64) -> spec_fn(Usuario) -> bool {
    |u: Usuario| u.id == id
}

/// The message of an update or a removal of a player not kept.
pub open spec fn erro_nao_encontrado() -> Seq<char> {
    "Usuário não encontrado"@
}

impl RepositorioUsuarioJson {
    /// The file the players are kept in.
    pub closed spec fn caminho(&self) -> Seq<char> {
        self.path@
    }

    /// The players kept, in order.
    pub closed spec fn usuarios(&self) -> Seq<Usuario> {
        self.users@
    }

    /// A store for the file at `path` holding `users` (what the file held when it was read).
    pub fn new(path: &str, users: Vec<Usuario>) -> (r: Self)
        ensures
            r.caminho() == path@,
            r.usuarios() == users@,
    {
        RepositorioUsuarioJson { path: path.to_owned(), users }
    }

    /// The file the players are kept in.
    pub fn caminho_arquivo(&self) -> (r: &str)
        ensures
            r@ == self.caminho(),
    {
        self.path.as_str()
    }

    /// Keeps `usuario` after the others.
    pub fn salvar(&mut self, usuario: Usuario)
        ensures
            final(self).usuarios() == old(self).usuarios().push(usuario),
            final(self).caminho() == old(self).caminho(),
    {
        self.users.push(usuario);
    }

    /// The position of the first player kept that satisfies the login or id asked for.
    fn posicao(&self, login: &String, por_login: bool, id: u64) -> (r: Option<usize>)
        ensures
            r matches Some(i) ==> i < self.usuarios().len(),
            r matches Some(i) ==> primeiro(
                self.usuarios(),
                if por_login {
                    com_login(login@)
                } else {
                    com_id(id)
                },
            ) == Some(i as int),
            r is None ==> primeiro(
                self.usuarios(),
                if por_login {
                    com_login(login@)
                } else {
                    com_id(id)
                },
            ) is None,
    {
        let ghost p = if por_login {
            com_login(login@)
        } else {
            com_id(id)
        };
        proof {
            lema_primeiro(self.users@, p);
        }
        let mut i: usize = 0;
        while i < self.users.len()
            invariant
                i <= self.users@.len(),
                forall|j: int| 0 <= j < i ==> !p(#[trigger] self.users@[j]),
                p == (if por_login {
                    com_login(login@)
                } else {
                    com_id(id)
                }),
                match primeiro(self.users@, p) {
                    Some(k) => 0 <= k < self.users@.len() && p(self.users@[k]) && forall|j: int|
                        0 <= j < k ==> !p(#[trigger] self.users@[j]),
                    None => forall|j: int| 0 <= j < self.users@.len() ==> !p(#[trigger] self.users@[j]),
                },
            decreases self.users@.len() - i,
        {
            let u = &self.users[i];
            let acha = if por_login {
                u.login == *login
            } else {
                u.id == id
            };
            if acha {
                assert(p(self.users@[i as int]));
                return Some(i);
            }
            i += 1;
        }
        None
    }

    /// The first player kept with the login `login`, if any.
    pub fn achar_por_login(&self, login: &str) -> (r: Option<Usuario>)
        ensures
            r == achado(self.usuarios(), com_login(login@)),
    {
        let l = login.to_owned();
        match self.posicao(&l, true, 0) {
            Some(i) => Some(self.users[i].copiar()),
            None => None,
        }
    }

    /// The first player kept with the id `id`, if any.
    pub fn achar_por_id(&self, id: u64) -> (r: Option<Usuario>)
        ensures
            r == achado(self.usuarios(), com_id(id)),
    {
        let l = String::new();
        match self.posicao(&l, false, id) {
            Some(i) => Some(self.users[i].copiar()),
            None => None,
        }
    }

    /// Puts `usuario` in the place of the first player kept with its id; fails with "Usuário não
    /// encontrado", changing nothing, when there is none.
    pub fn atualizar(&mut self, usuario: Usuario) -> (r: Result<(), String>)
        ensures
            final(self).caminho() == old(self).caminho(),
            match primeiro(old(self).usuarios(), com_id(usuario.id)) {
                Some(i) => r is Ok && final(self).usuarios() == old(self).usuarios().update(i, usuario),
                None => r matches Err(e) && e@ == erro_nao_encontrado() && final(self).usuarios()
                    == old(self).usuarios(),
            },
    {
        let l = String::new();
        match self.posicao(&l, false, usuario.id) {
            Some(i) => {
                self.users.set(i, usuario);
                Ok(())
            },
            None => Err(String::from_str("Usuário não encontrado")),
        }
    }

    /// Drops the first player kept with the id `id`, keeping the others in order; fails with
    /// "Usuário não encontrado", changing nothing, when there is none.
    pub fn excluir(&mut self, id: u64) -> (r: Result<(), String>)
        ensures
            final(self).caminho() == old(self).caminho(),
            match primeiro(old(self).usuarios(), com_id(id)) {
                Some(i) => r is Ok && final(self).usuarios() == old(self).usuarios().remove(i),
                None => r matches Err(e) && e@ == erro_nao_encontrado() && final(self).usuarios()
                    == old(self).usuarios(),
            },
    {
        let l = String::new();
        match self.posicao(&l, false, id) {
            Some(i) => {
                self.users.remove(i);
                Ok(())
            },
            None => Err(String::from_str("Usuário não encontrado")),
        }
    }

    /// A copy of every player kept, in order.
    pub fn listar(&self) -> (r: Vec<Usuario>)
        ensures
            r@ == self.usuarios(),
    {
        let mut r: Vec<Usuario> = Vec::new();
        let mut i: usize = 0;
        while i < self.users.len()
            invariant
                i <= self.users@.len(),
                r@ == self.users@.take(i as int),
            decreases self.users@.len() - i,
        {
            r.push(self.users[i].copiar());
            assert(self.users@.take(i + 1) =~= self.users@.take(i as int).push(self.users@[i as int]));
            i += 1;
        }
        assert(self.users@.take(self.users@.len() as int) =~= self.users@);
        r
    }
}

} // verus!
