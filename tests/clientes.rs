use loja::cliente_servico::{alterar, buscar_por_id, criar, excluir_por_id, listar};
use loja::loja::Loja;
use loja::modelos::ErroLoja;
use loja::produto_repositorio;

#[test]
fn criar_e_listar_clientes() {
    let mut l = Loja::nova();
    assert!(criar(&mut l, "Ana".to_string(), "111".to_string()));
    assert!(criar(&mut l, "Bruno".to_string(), "222".to_string()));
    let cs = listar(&l);
    assert_eq!(cs.len(), 2);
    assert_eq!((cs[0].id, cs[0].nome.as_str(), cs[0].telefone.as_str()), (1, "Ana", "111"));
    assert_eq!((cs[1].id, cs[1].nome.as_str(), cs[1].telefone.as_str()), (2, "Bruno", "222"));
}

#[test]
fn criar_cliente_sem_id_livre() {
    let mut l = Loja::nova();
    l.proximo_cliente = u32::MAX;
    assert!(!criar(&mut l, "Ana".to_string(), "111".to_string()));
    assert!(l.clientes.is_empty());
}

#[test]
fn alterar_cliente() {
    let mut l = Loja::nova();
    assert!(criar(&mut l, "Ana".to_string(), "111".to_string()));
    assert!(criar(&mut l, "Bruno".to_string(), "222".to_string()));
    assert!(alterar(&mut l, 2, "Bia".to_string(), "333".to_string()));
    assert!(alterar(&mut l, 9, "X".to_string(), "0".to_string()));
    let b = buscar_por_id(&l, 2);
    assert_eq!((b.nome.as_str(), b.telefone.as_str()), ("Bia", "333"));
    assert_eq!(buscar_por_id(&l, 1).nome, "Ana");
    assert_eq!(l.clientes.len(), 2);
}

#[test]
fn excluir_cliente_mantem_ids() {
    let mut l = Loja::nova();
    assert!(criar(&mut l, "Ana".to_string(), "111".to_string()));
    assert!(criar(&mut l, "Bruno".to_string(), "222".to_string()));
    assert!(excluir_por_id(&mut l, 1));
    assert!(excluir_por_id(&mut l, 1));
    assert_eq!(listar(&l).len(), 1);
    assert!(criar(&mut l, "Caio".to_string(), "444".to_string()));
    assert_eq!(buscar_por_id(&l, 3).nome, "Caio");
}

#[test]
fn buscar_cliente_inexistente() {
    let l = Loja::nova();
    let c = buscar_por_id(&l, 5);
    assert_eq!(c.id, 5);
    assert_eq!(c.nome, "Cliente não encontrado");
    assert_eq!(c.telefone, "");
}

#[test]
fn buscar_e_listar_produtos() {
    let mut l = Loja::nova();
    assert_eq!(produto_repositorio::cadastrar(&mut l, "Cafe".to_string(), "Torrado".to_string(), "c.png".to_string(), 1999), Ok(1));
    let p = produto_repositorio::buscar_por_id(&l, 1).unwrap();
    assert_eq!((p.id, p.nome.as_str(), p.preco), (1, "Cafe", 1999));
    assert_eq!(produto_repositorio::buscar_por_id(&l, 2).err(), Some(ErroLoja::NaoEncontrado));
    assert_eq!(produto_repositorio::buscar_por_id(&l, 0).err(), Some(ErroLoja::NaoEncontrado));
    assert_eq!(produto_repositorio::listar(&l).len(), 1);
}
