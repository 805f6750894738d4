use vstd::prelude::*;

verus! {

/// The phases of a match.
#[derive(Debug, Clone, Copy, PartialEq, Eq, Structural)]
pub enum EstadoTurno {
    SelecaoDificuldade,
    PosicionamentoJogador,
    PosicionamentoIA,
    TurnoJogador,
    TurnoIA,
    VitoriaJogador,
    VitoriaIA,
}

/// What the turn manager knows: the phase, the round, and how many ships each side has afloat.
pub struct Turnos {
    pub estado: EstadoTurno,
    pub numero_turno: nat,
    pub navios_jogador: nat,
    pub navios_ia: nat,
}

impl Turnos {
    /// The match is over.
    pub open spec fn terminou(self) -> bool {
        self.estado is VitoriaJogador || self.estado is VitoriaIA
    }

    /// While the match is on, each side has a ship afloat.
    pub open spec fn coerente(self) -> bool {
        !self.terminou() ==> self.navios_jogador > 0 && self.navios_ia > 0
    }

    /// After the difficulty was chosen.
    pub open spec fn apos_confirmar_dificuldade(self) -> Turnos {
        if self.estado is SelecaoDificuldade {
            Turnos { estado: EstadoTurno::PosicionamentoJogador, ..self }
        } else {
            self
        }
    }

    /// After the player placed the fleet.
    pub open spec fn apos_finalizar_posicionamento(self) -> Turnos {
        if self.estado is PosicionamentoJogador {
            Turnos { estado: EstadoTurno::PosicionamentoIA, ..self }
        } else {
            self
        }
    }

    /// After the battle began: first round, the player shoots.
    pub open spec fn apos_iniciar_jogo(self) -> Turnos {
        if self.estado is PosicionamentoIA {
            Turnos { estado: EstadoTurno::TurnoJogador, numero_turno: 1, ..self }
        } else {
            self
        }
    }

    /// After a shot of the player: a sunk ship counts down the enemy fleet and the last one
    /// wins; a hit keeps the turn; a miss hands it to the enemy. Out of turn nothing changes.
    pub open spec fn apos_ataque_jogador(self, acertou: bool, afundou: bool) -> Turnos {
        if !(self.estado is TurnoJogador) {
            self
        } else {
            let restantes: nat = if afundou {
                (self.navios_ia - 1) as nat
            } else {
                self.navios_ia
            };
            let estado = if afundou && restantes == 0 {
                EstadoTurno::VitoriaJogador
            } else if acertou {
                EstadoTurno::TurnoJogador
            } else {
                EstadoTurno::TurnoIA
            };
            Turnos { estado, navios_ia: restantes, ..self }
        }
    }

    /// After a shot of the enemy: the same rules with the sides swapped; when the turn comes
    /// back to the player a new round begins.
    pub open spec fn apos_ataque_ia(self, acertou: bool, afundou: bool) -> Turnos {
        if !(self.estado is TurnoIA) {
            self
        } else {
            let restantes: nat = if afundou {
                (self.navios_jogador - 1) as nat
            } else {
                self.navios_jogador
            };
            if afundou && restantes == 0 {
                Turnos { estado: EstadoTurno::VitoriaIA, navios_jogador: restantes, ..self }
            } else if acertou {
                Turnos { navios_jogador: restantes, ..self }
            } else {
                Turnos {
                    estado: EstadoTurno::TurnoJogador,
                    numero_turno: self.numero_turno + 1,
                    navios_jogador: restantes,
                    ..self
                }
            }
        }
    }
}

/// Drives the phases of a match and counts the ships each side has afloat.
pub struct GerenciadorTurnos {
    estado_atual: EstadoTurno,
    numero_turno: u32,
    navios_jogador: u32,
    navios_ia: u32,
}

impl View for GerenciadorTurnos {
    type V = Turnos;

    closed spec fn view(&self) -> Turnos {
        Turnos {
            estado: self.estado_atual,
            numero_turno: self.numero_turno as nat,
            navios_jogador: self.navios_jogador as nat,
            navios_ia: self.navios_ia as nat,
        }
    }
}

impl GerenciadorTurnos {
    /// A match about to choose its difficulty, each side with `total_navios_por_jogador` ships.
    pub fn novo(total_navios_por_jogador: u32) -> (r: Self)
        ensures
            r@ == (Turnos {
                estado: EstadoTurno::SelecaoDificuldade,
                numero_turno: 0,
                navios_jogador: total_navios_por_jogador as nat,
                navios_ia: total_navios_por_jogador as nat,
            }),
    {
        Self {
            estado_atual: EstadoTurno::SelecaoDificuldade,
            numero_turno: 0,
            navios_jogador: total_navios_por_jogador,
            navios_ia: total_navios_por_jogador,
        }
    }

    /// The current phase.
    pub fn estado_atual(&self) -> (r: EstadoTurno)
        ensures
            r == self@.estado,
    {
        self.estado_atual
    }

    /// The difficulty was chosen: the player places the fleet next.
    pub fn confirmar_dificuldade(&mut self)
        ensures
            final(self)@ == old(self)@.apos_confirmar_dificuldade(),
    {
        if self.estado_atual == EstadoTurno::SelecaoDificuldade {
            self.estado_atual = EstadoTurno::PosicionamentoJogador;
        }
    }

    /// The player placed the fleet: the enemy places its own next.
    pub fn finalizar_posicionamento_jogador(&mut self)
        ensures
            final(self)@ == old(self)@.apos_finalizar_posicionamento(),
    {
        if self.estado_atual == EstadoTurno::PosicionamentoJogador {
            self.estado_atual = EstadoTurno::PosicionamentoIA;
        }
    }

    /// Both fleets are placed: the first round begins with the player's shot.
    pub fn iniciar_jogo(&mut self)
        ensures
            final(self)@ == old(self)@.apos_iniciar_jogo(),
    {
        if self.estado_atual == EstadoTurno::PosicionamentoIA {
            self.numero_turno = 1;
            self.estado_atual = EstadoTurno::TurnoJogador;
        }
    }

    /// Takes the outcome of a shot of the player; `false`, and nothing changes, out of turn.
    pub fn processar_ataque_jogador(&mut self, _acertou: bool, afundou_navio: bool) -> (r: bool)
        requires
            old(self)@.estado is TurnoJogador && afundou_navio ==> old(self)@.navios_ia > 0,
        ensures
            r == old(self)@.estado is TurnoJogador,
            final(self)@ == old(self)@.apos_ataque_jogador(_acertou, afundou_navio),
    {
        if self.estado_atual != EstadoTurno::TurnoJogador {
            return false;
        }
        if afundou_navio {
            self.navios_ia -= 1;
            if self.navios_ia == 0 {
                self.estado_atual = EstadoTurno::VitoriaJogador;
                return true;
            }
        }
        if _acertou {
            return true;
        }
        self.avancar_para_turno_ia();
        true
    }

    /// Takes the outcome of a shot of the enemy; `false`, and nothing changes, out of turn.
    pub fn processar_ataque_ia(&mut self, _acertou: bool, afundou_navio: bool) -> (r: bool)
        requires
            old(self)@.estado is TurnoIA && afundou_navio ==> old(self)@.navios_jogador > 0,
            old(self)@.estado is TurnoIA && !_acertou ==> old(self)@.numero_turno < u32::MAX,
        ensures
            r == old(self)@.estado is TurnoIA,
            final(self)@ == old(self)@.apos_ataque_ia(_acertou, afundou_navio),
    {
        if self.estado_atual != EstadoTurno::TurnoIA {
            return false;
        }
        if afundou_navio {
            self.navios_jogador -= 1;
            if self.navios_jogador == 0 {
                self.estado_atual = EstadoTurno::VitoriaIA;
                return true;
            }
        }
        if _acertou {
            return true;
        }
        self.avancar_para_turno_jogador();
        true
    }

    /// How many ships the player has afloat.
    pub fn navios_restantes_jogador(&self) -> (r: u32)
        ensures
            r == self@.navios_jogador,
    {
        self.navios_jogador
    }

    /// How many ships the enemy has afloat.
    pub fn navios_restantes_ia(&self) -> (r: u32)
        ensures
            r == self@.navios_ia,
    {
        self.navios_ia
    }

    /// The current round.
    pub fn rodada_atual(&self) -> (r: u32)
        ensures
            r == self@.numero_turno,
    {
        self.numero_turno
    }

    /// One side won.
    pub fn jogo_terminou(&self) -> (r: bool)
        ensures
            r == self@.terminou(),
    {
        match self.estado_atual {
            EstadoTurno::VitoriaJogador | EstadoTurno::VitoriaIA => true,
            _ => false,
        }
    }

    fn avancar_para_turno_ia(&mut self)
        ensures
            final(self)@ == (Turnos { estado: EstadoTurno::TurnoIA, ..old(self)@ }),
    {
        self.estado_atual = EstadoTurno::TurnoIA;
    }

    fn avancar_para_turno_jogador(&mut self)
        requires
            old(self)@.numero_turno < u32::MAX,
        ensures
            final(self)@ == (Turnos {
                estado: EstadoTurno::TurnoJogador,
                numero_turno: old(self)@.numero_turno + 1,
                ..old(self)@
            }),
    {
        self.numero_turno += 1;
        self.estado_atual = EstadoTurno::TurnoJogador;
    }
}

/// Law: once a side won, the match stays over whatever comes next.
pub proof fn lei_fim_de_jogo_definitivo(t: Turnos, acertou: bool, afundou: bool)
    requires
        t.terminou(),
    ensures
        t.apos_confirmar_dificuldade() == t,
        t.apos_finalizar_posicionamento() == t,
        t.apos_iniciar_jogo() == t,
        t.apos_ataque_jogador(acertou, afundou) == t,
        t.apos_ataque_ia(acertou, afundou) == t,
{
}

/// Law: a shot never adds a ship to either fleet, and only a sunk ship takes one away.
pub proof fn lei_frotas_so_diminuem(t: Turnos, acertou: bool, afundou: bool)
    requires
        t.estado is TurnoJogador && afundou ==> t.navios_ia > 0,
        t.estado is TurnoIA && afundou ==> t.navios_jogador > 0,
    ensures
        t.apos_ataque_jogador(acertou, afundou).navios_jogador == t.navios_jogador,
        t.apos_ataque_jogador(acertou, afundou).navios_ia <= t.navios_ia,
        t.apos_ataque_jogador(acertou, afundou).navios_ia < t.navios_ia ==> afundou,
        t.apos_ataque_ia(acertou, afundou).navios_ia == t.navios_ia,
        t.apos_ataque_ia(acertou, afundou).navios_jogador <= t.navios_jogador,
        t.apos_ataque_ia(acertou, afundou).navios_jogador < t.navios_jogador ==> afundou,
{
}

/// Law: in a match not yet over, the player wins exactly when the shot sinks the last enemy
/// ship, and the enemy likewise.
pub proof fn lei_vitoria_no_ultimo_navio(t: Turnos, acertou: bool, afundou: bool)
    requires
        !t.terminou(),
        t.estado is TurnoJogador ==> t.navios_ia > 0,
        t.estado is TurnoIA ==> t.navios_jogador > 0,
    ensures
        t.apos_ataque_jogador(acertou, afundou).estado is VitoriaJogador <==> (t.estado is TurnoJogador
            && afundou && t.navios_ia == 1),
        t.apos_ataque_ia(acertou, afundou).estado is VitoriaIA <==> (t.estado is TurnoIA && afundou
            && t.navios_jogador == 1),
{
}

/// Law: while the match is on each side has a ship afloat: a match that starts with ships on
/// both sides keeps it through every step, so a shot that sinks a ship always finds one to count
/// down.
pub proof fn lei_turnos_coerentes(t: Turnos, acertou: bool, afundou: bool)
    requires
        t.coerente(),
    ensures
        t.apos_confirmar_dificuldade().coerente(),
        t.apos_finalizar_posicionamento().coerente(),
        t.apos_iniciar_jogo().coerente(),
        t.apos_ataque_jogador(acertou, afundou).coerente(),
        t.apos_ataque_ia(acertou, afundou).coerente(),
        t.estado is TurnoJogador ==> t.navios_ia > 0,
        t.estado is TurnoIA ==> t.navios_jogador > 0,
{
}

/// Law: a match set up with ships on both sides starts coherent.
pub proof fn lei_inicio_coerente(n: u32)
    requires
        n > 0,
    ensures
        (Turnos {
            estado: EstadoTurno::SelecaoDificuldade,
            numero_turno: 0,
            navios_jogador: n as nat,
            navios_ia: n as nat,
        }).coerente(),
{
}

/// A step of a match, as the manager's methods take them.
pub enum Passo {
    ConfirmarDificuldade,
    FinalizarPosicionamento,
    IniciarJogo,
    AtaqueJogador(bool, bool),
    AtaqueIa(bool, bool),
}

impl Turnos {
    /// A match about to choose its difficulty, each side with `n` ships (as `novo` makes it).
    pub open spec fn inicial(n: nat) -> Turnos {
        Turnos { estado: EstadoTurno::SelecaoDificuldade, numero_turno: 0, navios_jogador: n, navios_ia: n }
    }

    /// The state after one step.
    pub open spec fn apos_passo(self, p: Passo) -> Turnos {
        match p {
            Passo::ConfirmarDificuldade => self.apos_confirmar_dificuldade(),
            Passo::FinalizarPosicionamento => self.apos_finalizar_posicionamento(),
            Passo::IniciarJogo => self.apos_iniciar_jogo(),
            Passo::AtaqueJogador(acertou, afundou) => self.apos_ataque_jogador(acertou, afundou),
            Passo::AtaqueIa(acertou, afundou) => self.apos_ataque_ia(acertou, afundou),
        }
    }

    /// The state after the steps, in order.
    pub open spec fn apos_passos(self, ps: Seq<Passo>) -> Turnos
        decreases ps.len(),
    {
        if ps.len() == 0 {
            self
        } else {
            self.apos_passo(ps[0]).apos_passos(ps.drop_first())
        }
    }

    /// The counts fit the phase: while the match is on each side has a ship afloat, and the
    /// side that lost has none.
    pub open spec fn contas_certas(self) -> bool {
        &&& self.coerente()
        &&& self.estado is VitoriaJogador ==> self.navios_ia == 0
        &&& self.estado is VitoriaIA ==> self.navios_jogador == 0
    }
}

/// One step keeps the counts fitting the phase.
proof fn lema_passo_contas(t: Turnos, p: Passo)
    requires
        t.contas_certas(),
    ensures
        t.apos_passo(p).contas_certas(),
{
}

/// Law: in every match that starts with at least one ship a side, after any sequence of steps
/// the counts fit the phase. So a sinking shot in the player's turn always finds an enemy ship
/// to count down (and in the enemy's turn a ship of the player's): the counts never go below
/// zero; and a match is won only by sinking the other side's last ship.
pub proof fn lei_partida_coerente(n: nat, ps: Seq<Passo>)
    requires
        n >= 1,
    ensures
        Turnos::inicial(n).apos_passos(ps).contas_certas(),
        ({
            let t = Turnos::inicial(n).apos_passos(ps);
            &&& t.estado is TurnoJogador ==> t.navios_ia >= 1 && t.navios_jogador >= 1
            &&& t.estado is TurnoIA ==> t.navios_ia >= 1 && t.navios_jogador >= 1
        }),
{
    lema_passos_contas(Turnos::inicial(n), ps);
}

/// Steps in sequence keep the counts fitting the phase.
proof fn lema_passos_contas(t: Turnos, ps: Seq<Passo>)
    requires
        t.contas_certas(),
    ensures
        t.apos_passos(ps).contas_certas(),
    decreases ps.len(),
{
    if ps.len() > 0 {
        lema_passo_contas(t, ps[0]);
        lema_passos_contas(t.apos_passo(ps[0]), ps.drop_first());
    }
}


/// Law: a shot that hit keeps the turn with the side that shot, sinking a ship or not, unless it
/// sank that side's last opposing ship and won; a miss hands the turn over. Each sinking counts
/// one opposing ship less.
pub proof fn lei_acerto_mantem_a_vez(t: Turnos, acertou: bool, afundou: bool)
    ensures
        t.estado is TurnoIA && (afundou ==> t.navios_jogador > 0) ==> {
            let u = t.apos_ataque_ia(acertou, afundou);
            &&& u.navios_jogador == if afundou { t.navios_jogador - 1 } else { t.navios_jogador as int }
            &&& afundou && t.navios_jogador == 1 ==> u.estado is VitoriaIA
            &&& !(afundou && t.navios_jogador == 1) && acertou ==> u.estado is TurnoIA
            &&& !(afundou && t.navios_jogador == 1) && !acertou ==> u.estado is TurnoJogador
        },
        t.estado is TurnoJogador && (afundou ==> t.navios_ia > 0) ==> {
            let u = t.apos_ataque_jogador(acertou, afundou);
            &&& u.navios_ia == if afundou { t.navios_ia - 1 } else { t.navios_ia as int }
            &&& afundou && t.navios_ia == 1 ==> u.estado is VitoriaJogador
            &&& !(afundou && t.navios_ia == 1) && acertou ==> u.estado is TurnoJogador
            &&& !(afundou && t.navios_ia == 1) && !acertou ==> u.estado is TurnoIA
        },
{
}

} // verus!
