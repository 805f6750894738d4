use vstd::prelude::*;

verus! {

/// The character of the decimal digit `d`.
pub open spec fn digito(d: nat) -> char {
    (48 + d) as char
}

/// The decimal digits of `n`, with no leading zero, as `{}` writes an unsigned integer.
pub open spec fn decimal(n: nat) -> Seq<char>
    decreases n,
{
    if n < 10 {
        seq![digito(n)]
    } else {
        decimal(n / 10).push(digito(n % 10))
    }
}

/// The digit `d` as a text of one character.
fn digito_texto(d: u64) -> (r: &'static str)
    requires
        d < 10,
    ensures
        r@ == seq![digito(d as nat)],
{
    match d {
        0 => {
            proof {
                reveal_strlit("0");
            }
            "0"
        },
        1 => {
            proof {
                reveal_strlit("1");
            }
            "1"
        },
        2 => {
            proof {
                reveal_strlit("2");
            }
            "2"
        },
        3 => {
            proof {
                reveal_strlit("3");
            }
            "3"
        },
        4 => {
            proof {
                reveal_strlit("4");
            }
            "4"
        },
        5 => {
            proof {
                reveal_strlit("5");
            }
            "5"
        },
        6 => {
            proof {
                reveal_strlit("6");
            }
            "6"
        },
        7 => {
            proof {
                reveal_strlit("7");
            }
            "7"
        },
        8 => {
            proof {
                reveal_strlit("8");
            }
            "8"
        },
        _ => {
            proof {
                reveal_strlit("9");
            }
            "9"
        },
    }
}

/// The decimal digits of `n`, as `decimal` says.
pub fn escrever_decimal(n: u64) -> (r: String)
    ensures
        r@ == decimal(n as nat),
    decreases n,
{
    if n < 10 {
        String::from_str(digito_texto(n))
    } else {
        let mut s = escrever_decimal(n / 10);
        s.append(digito_texto(n % 10));
        assert(s@ =~= decimal(n as nat));
        s
    }
}

/// Writes `"{prefixo} em [{x}, {y}]!"`: the prefix, then both coordinates in decimal.
pub(crate) fn mensagem_coordenada(prefixo: &str, x: usize, y: usize) -> (r: String)
    ensures
        r@ == prefixo@ + " em ["@ + decimal(x as nat) + ", "@ + decimal(y as nat) + "]!"@,
{
    let mut s = String::from_str(prefixo);
    s.append(" em [");
    let dx = escrever_decimal(x as u64);
    s.append(dx.as_str());
    s.append(", ");
    let dy = escrever_decimal(y as u64);
    s.append(dy.as_str());
    s.append("]!");
    s
}

/// Writes `"KABOOM! O {nome} afundou!"`.
pub(crate) fn mensagem_afundou(nome: &String) -> (r: String)
    ensures
        r@ == "KABOOM! O "@ + nome@ + " afundou!"@,
{
    let mut s = String::from_str("KABOOM! O ");
    s.append(nome.as_str());
    s.append(" afundou!");
    s
}

/// Writes `"Rodada {rodada}"`.
pub(crate) fn mensagem_rodada(rodada: u32) -> (r: String)
    ensures
        r@ == "Rodada "@ + decimal(rodada as nat),
{
    let mut s = String::from_str("Rodada ");
    let d = escrever_decimal(rodada as u64);
    s.append(d.as_str());
    s
}

/// Writes `"Posicione: {nome} ({tamanho})\nClique: posicionar | R: rotacionar ({orientacao})"`.
pub(crate) fn mensagem_posicione(nome: &str, tamanho: usize, orientacao: &str) -> (r: String)
    ensures
        r@ == "Posicione: "@ + nome@ + " ("@ + decimal(tamanho as nat) + ")\nClique: posicionar | R: rotacionar ("@
            + orientacao@ + ")"@,
{
    let mut s = String::from_str("Posicione: ");
    s.append(nome);
    s.append(" (");
    let d = escrever_decimal(tamanho as u64);
    s.append(d.as_str());
    s.append(")\nClique: posicionar | R: rotacionar (");
    s.append(orientacao);
    s.append(")");
    s
}

} // verus!
