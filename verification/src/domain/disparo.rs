use vstd::prelude::*;

use crate::domain::tabuleiro::{
    do_navio, lema_pos, navio_da_celula, pos, Celula, EstadoTabuleiro, Navio, BOARD_SIZE,
};
use crate::texto::{decimal, mensagem_afundou, mensagem_coordenada};

verus! {

/// What a shot did.
#[derive(Debug, Clone, PartialEq)]
pub enum ResultadoDisparo {
    Agua,
    Acerto,
    Afundou(String),
    JaDisparado,
    ForaDosLimites,
}

impl ResultadoDisparo {
    /// A shot counts when it fell on water or a ship not shot before.
    pub fn foi_valido(&self) -> (r: bool)
        ensures
            r == (self is Agua || self is Acerto || self is Afundou),
    {
        match self {
            ResultadoDisparo::Agua | ResultadoDisparo::Acerto | ResultadoDisparo::Afundou(_) => true,
            _ => false,
        }
    }
}

/// The outcome of a shot and the message that tells it.
pub struct RetornoDisparo {
    pub resultado: ResultadoDisparo,
    pub mensagem: String,
}

/// A cell that was shot at: a second shot there changes nothing.
pub open spec fn ja_disparada(c: Celula) -> bool {
    c is AguaAtirada || c is Atingido || c is Afundado
}

/// The message of a shot at `(x, y)` that found water (`prefixo` "Água") or hit (`"Fogo"`).
pub open spec fn texto_coordenada(prefixo: Seq<char>, x: usize, y: usize) -> Seq<char> {
    prefixo + " em ["@ + decimal(x as nat) + ", "@ + decimal(y as nat) + "]!"@
}

/// The shot at `(x, y)` took `antes` to `depois` and told `r`. Water becomes `AguaAtirada`; an
/// intact ship cell becomes `Atingido` and its ship counts one more hit; when that is the last
/// of its cells, all the ship's cells become `Afundado`. A cell shot before, or a place off the
/// board, changes nothing.
pub open spec fn disparo_feito(
    antes: EstadoTabuleiro,
    depois: EstadoTabuleiro,
    x: usize,
    y: usize,
    r: RetornoDisparo,
) -> bool {
    &&& x < BOARD_SIZE && y < BOARD_SIZE ==> ja_disparada(depois.celula(x as int, y as int))
    &&& !(x < BOARD_SIZE && y < BOARD_SIZE) ==> {
        &&& r.resultado == ResultadoDisparo::ForaDosLimites
        &&& r.mensagem@ == "Alvo fora do mapa!"@
        &&& depois.celulas() == antes.celulas()
        &&& depois.frota() == antes.frota()
    }
    &&& x < BOARD_SIZE && y < BOARD_SIZE ==> match antes.celula(x as int, y as int) {
        Celula::Vazio => {
            &&& r.resultado == ResultadoDisparo::Agua
            &&& r.mensagem@ == texto_coordenada("Água"@, x, y)
            &&& depois.celulas() == antes.celulas().update(
                pos(x as int, y as int),
                Celula::AguaAtirada,
            )
            &&& depois.frota() == antes.frota()
        },
        Celula::Ocupado(i) => {
            let n = antes.frota()[i as int];
            let afundou = n.acertos + 1 >= n.tamanho;
            &&& depois.frota() == antes.frota().update(
                i as int,
                Navio { nome: n.nome, tamanho: n.tamanho, acertos: (n.acertos + 1) as usize },
            )
            &&& afundou ==> {
                &&& r.resultado == ResultadoDisparo::Afundou(n.nome)
                &&& r.mensagem@ == "KABOOM! O "@ + n.nome@ + " afundou!"@
                &&& forall|k: int|
                    0 <= k < 100 ==> #[trigger] depois.celulas()[k] == if k == pos(
                        x as int,
                        y as int,
                    ) || antes.celulas()[k] == Celula::Atingido(i) {
                        Celula::Afundado(i)
                    } else {
                        antes.celulas()[k]
                    }
            }
            &&& !afundou ==> {
                &&& r.resultado == ResultadoDisparo::Acerto
                &&& r.mensagem@ == texto_coordenada("Fogo"@, x, y)
                &&& depois.celulas() == antes.celulas().update(
                    pos(x as int, y as int),
                    Celula::Atingido(i),
                )
            }
        },
        _ => {
            &&& ja_disparada(antes.celula(x as int, y as int))
            &&& r.resultado == ResultadoDisparo::JaDisparado
            &&& r.mensagem@ == "Você já atirou aqui!"@
            &&& depois.celulas() == antes.celulas()
            &&& depois.frota() == antes.frota()
        },
    }
}

/// Shoots at `(x, y)` of `tabuleiro` (see `disparo_feito`).
/// Where the shot cell holds a ship, its index must name a ship that has not counted
/// `usize::MAX` hits already; on a well-formed board the shot keeps it well formed, and a sinking
/// leaves no cell of the ship but sunk ones.
pub fn executar_disparo(tabuleiro: &mut EstadoTabuleiro, x: usize, y: usize) -> (r: RetornoDisparo)
    requires
        x < BOARD_SIZE && y < BOARD_SIZE ==> (old(tabuleiro).celula(x as int, y as int) matches Celula::Ocupado(i)
            ==> i < old(tabuleiro).frota().len() && old(tabuleiro).frota()[i as int].acertos < usize::MAX),
    ensures
        old(tabuleiro).indices_validos() ==> final(tabuleiro).indices_validos(),
        old(tabuleiro).bem_formado() ==> final(tabuleiro).bem_formado(),
        disparo_feito(*old(tabuleiro), *final(tabuleiro), x, y, r),
        old(tabuleiro).bem_formado() && r.resultado is Afundou && x < BOARD_SIZE && y < BOARD_SIZE ==> {
            let i = navio_da_celula(old(tabuleiro).celula(x as int, y as int))->0;
            forall|k: int|
                0 <= k < 100 && do_navio(i)(#[trigger] final(tabuleiro).celulas()[k])
                    ==> final(tabuleiro).celulas()[k] == Celula::Afundado(i)
        },
{
    let celula_atual = match tabuleiro.valor_celula(x, y) {
        Some(c) => c,
        None => {
            return RetornoDisparo {
                resultado: ResultadoDisparo::ForaDosLimites,
                mensagem: String::from_str("Alvo fora do mapa!"),
            };
        },
    };
    proof {
        lema_pos(x as int, y as int);
        tabuleiro.lema_tamanho();
    }
    match celula_atual {
        Celula::Vazio => {
            tabuleiro.definir_celula(x, y, Celula::AguaAtirada);
            RetornoDisparo {
                resultado: ResultadoDisparo::Agua,
                mensagem: mensagem_coordenada("Água", x, y),
            }
        },
        Celula::Ocupado(_) => {
            let afundado = tabuleiro.receber_acerto(x, y);
            proof {
                let k = pos(x as int, y as int);
                assert(tabuleiro.celulas()[k] == tabuleiro.celula(x as int, y as int));
            }
            match afundado {
                Some(nome) => {
                    let mensagem = mensagem_afundou(&nome);
                    RetornoDisparo { resultado: ResultadoDisparo::Afundou(nome), mensagem }
                },
                None => RetornoDisparo {
                    resultado: ResultadoDisparo::Acerto,
                    mensagem: mensagem_coordenada("Fogo", x, y),
                },
            }
        },
        _ => RetornoDisparo {
            resultado: ResultadoDisparo::JaDisparado,
            mensagem: String::from_str("Você já atirou aqui!"),
        },
    }
}

/// A second shot at the same cell of the board is refused as already shot and changes nothing.
pub proof fn lei_disparo_repetido(
    antes: EstadoTabuleiro,
    meio: EstadoTabuleiro,
    depois: EstadoTabuleiro,
    x: usize,
    y: usize,
    r1: RetornoDisparo,
    r2: RetornoDisparo,
)
    requires
        x < BOARD_SIZE,
        y < BOARD_SIZE,
        disparo_feito(antes, meio, x, y, r1),
        disparo_feito(meio, depois, x, y, r2),
    ensures
        r2.resultado == ResultadoDisparo::JaDisparado,
        depois.celulas() == meio.celulas(),
        depois.frota() == meio.frota(),
{
}

} // verus!
