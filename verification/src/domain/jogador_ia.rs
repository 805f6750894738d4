use vstd::prelude::*;

use crate::domain::disparo::{disparo_feito, executar_disparo, RetornoDisparo};
use crate::domain::estrategias_ia::{alvos_livres, sorteado, EscolhaAlvo};
use crate::domain::estrategias_ia::dificil::EstrategiaDificil;
use crate::domain::estrategias_ia::facil::EstrategiaFacil;
use crate::domain::estrategias_ia::intermediaria::EstrategiaIntermediaria;
use crate::domain::tabuleiro::{fila_padrao, lema_pos, pos, preenchimento, tamanhos_frota, Celula, EstadoTabuleiro};

verus! {

/// How hard the enemy plays.
#[derive(Debug, Clone, Copy, PartialEq, Eq, Structural)]
pub enum Dificuldade {
    Facil,
    Intermediario,
    Dificil,
}

/// How the enemy picks its targets, with what it remembers.
pub enum Estrategia {
    Facil(EstrategiaFacil),
    Intermediaria(EstrategiaIntermediaria),
    Dificil(EstrategiaDificil),
}

/// The enemy: its own board and how it plays.
pub struct JogadorIA {
    tabuleiro: EstadoTabuleiro,
    estrategia: Estrategia,
}

impl JogadorIA {
    /// Its board.
    pub closed spec fn tabuleiro_spec(&self) -> EstadoTabuleiro {
        self.tabuleiro
    }

    /// How it plays.
    pub closed spec fn estrategia(&self) -> Estrategia {
        self.estrategia
    }

    /// Its board is well formed.
    pub open spec fn bem_formado(&self) -> bool {
        self.tabuleiro_spec().bem_formado()
    }

    /// A new enemy of difficulty `d`: an empty board, and a strategy of that difficulty that
    /// remembers nothing (the hard one with the whole standard fleet afloat).
    pub open spec fn recem_criado(&self, d: Dificuldade) -> bool {
        &&& self.bem_formado()
        &&& self.tabuleiro_spec().frota().len() == 0
        &&& forall|k: int| 0 <= k < 100 ==> #[trigger] self.tabuleiro_spec().celulas()[k] is Vazio
        &&& match d {
            Dificuldade::Facil => self.estrategia() is Facil,
            Dificuldade::Intermediario => self.estrategia() matches Estrategia::Intermediaria(m)
                && m@.acertos.len() == 0 && m@.direcao is None && m@.afundados.len() == 0,
            Dificuldade::Dificil => self.estrategia() matches Estrategia::Dificil(e) && e@.acertos.len() == 0
                && e@.todos.len() == 0 && e@.mapa.len() == 100 && e@.restantes == map![6usize => 2usize, 4usize => 2usize, 3usize => 1usize, 1usize => 1usize]
                && forall|k: int| 0 <= k < 100 ==> #[trigger] e@.mapa[k] is Desconhecido,
        }
    }

    /// An enemy of the given difficulty with an empty board, remembering nothing.
    pub fn novo(dificuldade: Dificuldade) -> (r: Self)
        ensures
            r.recem_criado(dificuldade),
    {
        let estrategia = match dificuldade {
            Dificuldade::Facil => Estrategia::Facil(EstrategiaFacil),
            Dificuldade::Intermediario => Estrategia::Intermediaria(EstrategiaIntermediaria::nova()),
            Dificuldade::Dificil => Estrategia::Dificil(EstrategiaDificil::nova()),
        };
        JogadorIA { tabuleiro: EstadoTabuleiro::vazio(), estrategia }
    }

    /// An easy enemy (see `novo`).
    pub fn novo_facil() -> (r: Self)
        ensures
            r.recem_criado(Dificuldade::Facil),
    {
        Self::novo(Dificuldade::Facil)
    }

    /// A medium enemy (see `novo`).
    pub fn novo_intermediario() -> (r: Self)
        ensures
            r.recem_criado(Dificuldade::Intermediario),
    {
        Self::novo(Dificuldade::Intermediario)
    }

    /// A hard enemy (see `novo`).
    pub fn novo_dificil() -> (r: Self)
        ensures
            r.recem_criado(Dificuldade::Dificil),
    {
        Self::novo(Dificuldade::Dificil)
    }

    /// Its board.
    pub fn tabuleiro(&self) -> (r: &EstadoTabuleiro)
        ensures
            *r == self.tabuleiro_spec(),
    {
        &self.tabuleiro
    }

    /// How it plays.
    pub fn estrategia_atual(&self) -> (r: &Estrategia)
        ensures
            *r == self.estrategia(),
    {
        &self.estrategia
    }

    /// Places its fleet on its board, each ship where its draw in `sorteios` picks (see
    /// `preencher_aleatoriamente`).
    pub fn posicionar_frota(&mut self, sorteios: [u32; 6])
        requires
            old(self).bem_formado(),
        ensures
            final(self).bem_formado(),
            final(self).estrategia() == old(self).estrategia(),
            old(self).tabuleiro_spec().frota().len() <= final(self).tabuleiro_spec().frota().len()
                <= old(self).tabuleiro_spec().frota().len() + 6,
            forall|i: int|
                0 <= i < old(self).tabuleiro_spec().frota().len() ==> #[trigger] final(self).tabuleiro_spec().frota()[i]
                    == old(self).tabuleiro_spec().frota()[i],
            forall|i: int|
                old(self).tabuleiro_spec().frota().len() <= i < final(self).tabuleiro_spec().frota().len() ==> {
                    &&& #[trigger] final(self).tabuleiro_spec().frota()[i].acertos == 0
                    &&& tamanhos_frota().contains(final(self).tabuleiro_spec().frota()[i].tamanho)
                },
            old(self).tabuleiro_spec().vazio_de_tudo() ==> {
                &&& final(self).tabuleiro_spec().frota().len() == 6
                &&& forall|i: int|
                    0 <= i < 6 ==> #[trigger] final(self).tabuleiro_spec().frota()[i].tamanho
                        == fila_padrao()[i].1 && final(self).tabuleiro_spec().frota()[i].nome@
                        == fila_padrao()[i].0
                &&& forall|i: int| 0 <= i < 6 ==> #[trigger] final(self).tabuleiro_spec().em_linha(i)
                &&& final(self).tabuleiro_spec().so_agua_e_navios()
            },
            ({
                let antes = old(self).tabuleiro_spec();
                let depois = final(self).tabuleiro_spec();
                let (c, novos) = preenchimento(antes.celulas(), antes.frota().len(), sorteios@, 0);
                &&& depois.celulas() == c
                &&& depois.frota().len() == antes.frota().len() + novos.len()
                &&& forall|i: int|
                    0 <= i < novos.len() ==> #[trigger] novos[i] == (
                        depois.frota()[antes.frota().len() + i].nome@,
                        depois.frota()[antes.frota().len() + i].tamanho,
                    )
            }),
    {
        self.tabuleiro.preencher_aleatoriamente(sorteios);
    }

    /// Decides what to shoot at on the player's board. The easy and the medium enemy pick a
    /// cell as their own `escolher_alvo` says. The hard one shoots next to the group of hits it
    /// attacks first when there is a cell worth it there, the one the draw `sorteio` picks;
    /// otherwise it hands back the weight of every cell.
    pub fn escolher_alvo(&mut self, tabuleiro_inimigo: &EstadoTabuleiro, sorteio: u32) -> (r: EscolhaAlvo)
        ensures
            final(self).tabuleiro_spec() == old(self).tabuleiro_spec(),
            match old(self).estrategia() {
                Estrategia::Facil(_) => {
                    &&& final(self).estrategia() is Facil
                    &&& r == EscolhaAlvo::Celula(sorteado(alvos_livres(*tabuleiro_inimigo), sorteio))
                    &&& r matches EscolhaAlvo::Celula(o)
                    &&& o is None <==> alvos_livres(*tabuleiro_inimigo).len() == 0
                    &&& o matches Some(p) ==> alvos_livres(*tabuleiro_inimigo).contains(p)
                },
                Estrategia::Intermediaria(m) => {
                    &&& final(self).estrategia() matches Estrategia::Intermediaria(m2)
                    &&& m2@.acertos == m@.acertos
                    &&& m2@.afundados == m@.afundados
                    &&& m2@.direcao == m@.direcao_apos_escolha()
                    &&& r matches EscolhaAlvo::Celula(o)
                    &&& m@.alvo_dirigido(*tabuleiro_inimigo) matches Some(p) ==> o == Some(p)
                    &&& m@.alvo_dirigido(*tabuleiro_inimigo) is None ==> {
                        &&& o == sorteado(alvos_livres(*tabuleiro_inimigo), sorteio)
                        &&& o is None <==> alvos_livres(*tabuleiro_inimigo).len() == 0
                        &&& o matches Some(p) ==> alvos_livres(*tabuleiro_inimigo).contains(p)
                    }
                },
                Estrategia::Dificil(d) => {
                    &&& final(self).estrategia() matches Estrategia::Dificil(d2)
                    &&& d2@ == d@
                    &&& d@.pontas_prioritarias().len() > 0 ==> r == EscolhaAlvo::Celula(
                        sorteado(d@.pontas_prioritarias(), sorteio),
                    )
                    &&& d@.pontas_prioritarias().len() == 0 ==> (r matches EscolhaAlvo::Pesos(w) && w@.len()
                        == 100 && forall|k: int| 0 <= k < 100 ==> #[trigger] w@[k] == d@.peso(k / 10, k % 10))
                },
            },
    {
        match &mut self.estrategia {
            Estrategia::Facil(f) => EscolhaAlvo::Celula(f.escolher_alvo(tabuleiro_inimigo, sorteio)),
            Estrategia::Intermediaria(m) => EscolhaAlvo::Celula(m.escolher_alvo(tabuleiro_inimigo, sorteio)),
            Estrategia::Dificil(d) => d.escolher_alvo(tabuleiro_inimigo, sorteio),
        }
    }

    /// Tells it the outcome of its shot at `(x, y)`: the medium and the hard enemy learn from it
    /// as their own `notificar_resultado` says; the easy one ignores it.
    pub fn notificar_resultado(&mut self, x: usize, y: usize, resultado: &RetornoDisparo)
        requires
            resultado.resultado is Agua || resultado.resultado is Acerto || resultado.resultado is Afundou
                ==> x < 10 && y < 10,
        ensures
            final(self).tabuleiro_spec() == old(self).tabuleiro_spec(),
            match old(self).estrategia() {
                Estrategia::Facil(_) => final(self).estrategia() is Facil,
                Estrategia::Intermediaria(m) => final(self).estrategia() matches Estrategia::Intermediaria(m2)
                    && m2@ == m@.apos_resultado(x, y, resultado.resultado),
                Estrategia::Dificil(d) => final(self).estrategia() matches Estrategia::Dificil(d2) && d2@
                    == d@.apos_resultado(x, y, resultado.resultado),
            },
    {
        match &mut self.estrategia {
            Estrategia::Facil(_) => {},
            Estrategia::Intermediaria(m) => m.notificar_resultado(x, y, resultado),
            Estrategia::Dificil(d) => d.notificar_resultado(x, y, resultado),
        }
    }

    /// Takes the player's shot at `(x, y)` on its board (see `executar_disparo`).
    pub fn receber_disparo(&mut self, x: usize, y: usize) -> (r: RetornoDisparo)
        requires
            old(self).bem_formado(),
        ensures
            final(self).bem_formado(),
            final(self).estrategia() == old(self).estrategia(),
            disparo_feito(old(self).tabuleiro_spec(), final(self).tabuleiro_spec(), x, y, r),
    {
        proof {
            if x < 10 && y < 10 {
                if let Celula::Ocupado(i) = self.tabuleiro.celula(x as int, y as int) {
                    self.tabuleiro.lema_tamanho();
                    assert(self.tabuleiro.celulas()[pos(x as int, y as int)] == Celula::Ocupado(i));
                    lema_pos(x as int, y as int);
                    self.tabuleiro.lema_acertos_limitados(i as int);
                }
            }
        }
        executar_disparo(&mut self.tabuleiro, x, y)
    }

    /// It lost: every ship of its fleet sank.
    pub fn perdeu(&self) -> (r: bool)
        ensures
            r == forall|i: int|
                0 <= i < self.tabuleiro_spec().frota().len() ==> #[trigger] self.tabuleiro_spec().frota()[i].acertos
                    >= self.tabuleiro_spec().frota()[i].tamanho,
    {
        let r = self.tabuleiro.todos_afundados();
        assert(self.tabuleiro_spec() == self.tabuleiro);
        r
    }
}

} // verus!
