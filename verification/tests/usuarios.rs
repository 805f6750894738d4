use batalha_naval::domain::entidades::conquista::Conquista;
use batalha_naval::domain::entidades::usuario::Usuario;
use batalha_naval::infrastructure::repositorio_usuario_json::RepositorioUsuarioJson;

fn usuario(id: u64, login: &str) -> Usuario {
    Usuario::novo_usuario(id, format!("Nome {}", id), login.to_string(), "segredo".to_string())
}

#[test]
fn novo_usuario_sem_jogos() {
    let u = usuario(7, "ana");
    assert_eq!(u.id, 7);
    assert_eq!(u.login, "ana");
    assert_eq!(u.senha_hash, "segredo");
    assert_eq!((u.jogos_totais, u.vitorias, u.derrotas), (0, 0, 0));
}

#[test]
fn vitorias_e_derrotas_somam_os_jogos() {
    let mut u = usuario(1, "bia");
    u.registrar_vitoria();
    u.registrar_derrota();
    u.registrar_vitoria();
    assert_eq!((u.jogos_totais, u.vitorias, u.derrotas), (3, 2, 1));
    assert_eq!(u.vitorias + u.derrotas, u.jogos_totais);
}

#[test]
fn copiar_mantem_tudo() {
    let mut u = usuario(3, "caio");
    u.registrar_derrota();
    let c = u.copiar();
    assert_eq!((c.id, c.nome.as_str(), c.login.as_str(), c.derrotas, c.jogos_totais), (3, "Nome 3", "caio", 1, 1));
}

#[test]
fn repositorio_acha_o_primeiro() {
    let mut r = RepositorioUsuarioJson::new("dados/usuarios.json", vec![usuario(1, "ana")]);
    r.salvar(usuario(2, "bia"));
    r.salvar(usuario(3, "ana"));
    assert_eq!(r.caminho_arquivo(), "dados/usuarios.json");
    assert_eq!(r.achar_por_login("ana").unwrap().id, 1);
    assert_eq!(r.achar_por_login("bia").unwrap().id, 2);
    assert!(r.achar_por_login("davi").is_none());
    assert_eq!(r.achar_por_id(3).unwrap().login, "ana");
    assert!(r.achar_por_id(4).is_none());
    let ids: Vec<u64> = r.listar().iter().map(|u| u.id).collect();
    assert_eq!(ids, vec![1, 2, 3]);
}

#[test]
fn repositorio_atualiza_e_exclui() {
    let mut r = RepositorioUsuarioJson::new("u.json", vec![usuario(1, "ana"), usuario(2, "bia")]);
    let mut nova = usuario(2, "bia");
    nova.registrar_vitoria();
    assert_eq!(r.atualizar(nova), Ok(()));
    assert_eq!(r.achar_por_id(2).unwrap().vitorias, 1);
    assert_eq!(r.atualizar(usuario(9, "x")), Err("Usuário não encontrado".to_string()));
    assert_eq!(r.excluir(1), Ok(()));
    assert!(r.achar_por_id(1).is_none());
    assert_eq!(r.excluir(1), Err("Usuário não encontrado".to_string()));
    assert_eq!(r.listar().len(), 1);
}

#[test]
fn conquistas_distintas() {
    assert_ne!(Conquista::Almirante, Conquista::Capitao);
    assert_eq!(Conquista::Marinheiro, Conquista::Marinheiro.clone());
    assert_ne!(Conquista::CapitaoDeMarEGuerra, Conquista::Capitao);
}
