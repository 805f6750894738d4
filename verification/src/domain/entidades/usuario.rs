use vstd::prelude::*;

verus! {

/// A registered player and the record of their games.
pub struct Usuario {
    pub id: u64,
    pub nome: String,
    pub login: String,
    pub senha_hash: String,
    pub jogos_totais: usize,
    pub vitorias: usize,
    pub derrotas: usize,
}

impl Usuario {
    /// The same player with one more game, won.
    pub open spec fn apos_vitoria(self) -> Usuario {
        Usuario {
            vitorias: (self.vitorias + 1) as usize,
            jogos_totais: (self.jogos_totais + 1) as usize,
            ..self
        }
    }

    /// The same player with one more game, lost.
    pub open spec fn apos_derrota(self) -> Usuario {
        Usuario {
            derrotas: (self.derrotas + 1) as usize,
            jogos_totais: (self.jogos_totais + 1) as usize,
            ..self
        }
    }

    /// Every game played was either won or lost.
    pub open spec fn contas_fecham(self) -> bool {
        self.vitorias + self.derrotas == self.jogos_totais
    }

    /// A new player with no games; the password is kept as given.
    pub fn novo_usuario(id: u64, nome: String, login: String, senha: String) -> (r: Self)
        ensures
            r.id == id,
            r.nome == nome,
            r.login == login,
            r.senha_hash == senha,
            r.jogos_totais == 0,
            r.vitorias == 0,
            r.derrotas == 0,
    {
        Self { id, nome, login, senha_hash: senha, jogos_totais: 0, vitorias: 0, derrotas: 0 }
    }

    /// Records a game won.
    pub fn registrar_vitoria(&mut self)
        requires
            old(self).vitorias < usize::MAX,
            old(self).jogos_totais < usize::MAX,
        ensures
            *final(self) == old(self).apos_vitoria(),
    {
        self.vitorias = self.vitorias + 1;
        self.jogos_totais = self.jogos_totais + 1;
    }

    /// Records a game lost.
    pub fn registrar_derrota(&mut self)
        requires
            old(self).derrotas < usize::MAX,
            old(self).jogos_totais < usize::MAX,
        ensures
            *final(self) == old(self).apos_derrota(),
    {
        self.derrotas = self.derrotas + 1;
        self.jogos_totais = self.jogos_totais + 1;
    }

    /// A copy of the player, field for field.
    pub fn copiar(&self) -> (r: Usuario)
        ensures
            r == *self,
    {
        Usuario {
            id: self.id,
            nome: self.nome.clone(),
            login: self.login.clone(),
            senha_hash: self.senha_hash.clone(),
            jogos_totais: self.jogos_totais,
            vitorias: self.vitorias,
            derrotas: self.derrotas,
        }
    }
}

/// Each game recorded counts once among the games played and once among the wins or the losses:
/// when the record adds up, recording a win or a loss keeps it adding up.
pub proof fn lei_registro_de_jogos(u: Usuario)
    requires
        u.contas_fecham(),
        u.jogos_totais < usize::MAX,
    ensures
        u.apos_vitoria().contas_fecham(),
        u.apos_derrota().contas_fecham(),
        u.apos_vitoria().jogos_totais == u.jogos_totais + 1,
        u.apos_derrota().jogos_totais == u.jogos_totais + 1,
{
}

} // verus!
