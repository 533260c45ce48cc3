use loja::cliente_servico;
use loja::loja::Loja;
use loja::modelos::{ErroLoja, Pedido, PedidoProduto};
use loja::pedido_produto_repositorio::{cria_se_nao_existir_ou_atualiza_quantidade, remove_quantidade_por_id};
use loja::pedido_repositorio;
use loja::pedido_servico::{self, adicionar, remover_produto};
use loja::produto_repositorio;

fn loja_com(clientes: u32, precos: &[u64]) -> Loja {
    let mut l = Loja::nova();
    for i in 0..clientes {
        assert!(cliente_servico::criar(&mut l, format!("Cliente {}", i + 1), format!("555-{}", i + 1)));
    }
    for (i, p) in precos.iter().enumerate() {
        let id = produto_repositorio::cadastrar(
            &mut l,
            format!("Produto {}", i + 1),
            format!("Descricao {}", i + 1),
            format!("img{}.png", i + 1),
            *p,
        )
        .unwrap();
        assert_eq!(id as usize, i + 1);
    }
    l
}

fn quantidade(l: &Loja, o: u32, p: u32) -> Option<u32> {
    let linhas: Vec<&PedidoProduto> = l.itens.iter().filter(|it| it.pedido_id == o && it.produto_id == p).collect();
    assert!(linhas.len() <= 1);
    linhas.first().map(|it| it.quantidade)
}

fn soma(l: &Loja, o: u32) -> u64 {
    l.itens
        .iter()
        .filter(|it| it.pedido_id == o)
        .map(|it| l.produtos[(it.produto_id - 1) as usize].preco * it.quantidade as u64)
        .sum()
}

#[test]
fn cenario_cliente_sete_produto_tres() {
    let mut l = loja_com(7, &[500, 700, 1000]);
    assert!(pedido_repositorio::ativo(&l, 7).is_none());

    assert!(adicionar(&mut l, 7, 3, 1_700_000_000));
    assert_eq!(l.pedidos.len(), 1);
    let o = pedido_repositorio::ativo(&l, 7).unwrap().id;
    assert_eq!(quantidade(&l, o, 3), Some(1));
    assert_eq!(l.pedidos[0].valor_total, 1000);

    assert!(adicionar(&mut l, 7, 3, 1_700_000_100));
    assert_eq!(l.pedidos.len(), 1);
    assert_eq!(quantidade(&l, o, 3), Some(2));
    assert_eq!(l.pedidos[0].valor_total, 2000);

    assert!(remover_produto(&mut l, o, 3));
    assert_eq!(quantidade(&l, o, 3), Some(1));
    assert_eq!(l.pedidos[0].valor_total, 1000);

    assert!(remover_produto(&mut l, o, 3));
    assert_eq!(quantidade(&l, o, 3), None);
    assert_eq!(l.itens.len(), 0);
    assert_eq!(l.pedidos[0].valor_total, 0);
}

#[test]
fn carrinho_de_cliente_sem_pedidos_vazio() {
    let l = loja_com(3, &[100]);
    let v = pedido_servico::ativo(&l, 2);
    assert_eq!(v.id, 0);
    assert_eq!(v.valor_total, 0);
    assert_eq!(v.cliente_id, 0);
    assert_eq!(v.cliente.id, 0);
    assert!(!v.pago);
    assert!(v.produtos.is_empty());
}

#[test]
fn produto_inexistente_falha_sem_mudar_o_pedido() {
    let mut l = loja_com(2, &[250, 400]);
    assert!(adicionar(&mut l, 1, 2, 10));
    let itens = l.itens.clone();
    let pedidos = l.pedidos.clone();
    assert!(!adicionar(&mut l, 1, 99, 20));
    assert_eq!(l.itens, itens);
    assert_eq!(l.pedidos, pedidos);
    assert_eq!(l.pedidos[0].valor_total, 400);
}

#[test]
fn produto_inexistente_sem_pedido_cria_so_o_pedido() {
    let mut l = loja_com(2, &[250]);
    assert!(!adicionar(&mut l, 2, 5, 30));
    assert_eq!(l.pedidos.len(), 1);
    assert_eq!(l.pedidos[0], Pedido { id: 1, valor_total: 0, cliente_id: 2, data: 30, pago: false });
    assert!(l.itens.is_empty());
}

#[test]
fn criacao_de_um_so_pedido() {
    let mut l = loja_com(4, &[100, 200]);
    assert!(adicionar(&mut l, 4, 1, 5));
    assert_eq!(l.pedidos.len(), 1);
    assert!(adicionar(&mut l, 4, 2, 6));
    assert_eq!(l.pedidos.len(), 1);
    assert!(adicionar(&mut l, 3, 2, 7));
    assert_eq!(l.pedidos.len(), 2);
    assert_eq!(l.pedidos[1].cliente_id, 3);
    assert_eq!(l.pedidos[0].data, 5);
}

#[test]
fn totais_em_qualquer_sequencia() {
    let mut l = loja_com(2, &[150, 275, 1000]);
    assert!(adicionar(&mut l, 1, 1, 0));
    assert!(adicionar(&mut l, 2, 3, 0));
    let passos: [(bool, u32, u32); 12] = [
        (true, 1, 2),
        (true, 1, 2),
        (true, 2, 1),
        (false, 1, 1),
        (true, 1, 3),
        (false, 2, 3),
        (false, 1, 2),
        (true, 2, 2),
        (false, 1, 3),
        (false, 1, 2),
        (false, 2, 1),
        (false, 2, 2),
    ];
    for (inc, o, p) in passos {
        if inc {
            assert_eq!(cria_se_nao_existir_ou_atualiza_quantidade(&mut l, o, p), Ok(()));
        } else {
            assert_eq!(remove_quantidade_por_id(&mut l, o, p), Ok(()));
        }
        for ped in &l.pedidos {
            assert_eq!(ped.valor_total, soma(&l, ped.id));
        }
    }
    assert!(l.itens.is_empty());
    assert_eq!(l.pedidos[0].valor_total, 0);
    assert_eq!(l.pedidos[1].valor_total, 0);
}

#[test]
fn decremento_de_par_ausente_nao_muda_nada() {
    let mut l = loja_com(1, &[100, 200]);
    assert!(adicionar(&mut l, 1, 1, 0));
    let itens = l.itens.clone();
    let pedidos = l.pedidos.clone();
    assert_eq!(remove_quantidade_por_id(&mut l, 1, 2), Ok(()));
    assert_eq!(remove_quantidade_por_id(&mut l, 9, 1), Ok(()));
    assert_eq!(l.itens, itens);
    assert_eq!(l.pedidos, pedidos);
}

#[test]
fn decremento_de_quantidade_um_remove_a_linha() {
    let mut l = loja_com(1, &[100, 200]);
    assert!(adicionar(&mut l, 1, 1, 0));
    assert!(adicionar(&mut l, 1, 2, 0));
    assert_eq!(remove_quantidade_por_id(&mut l, 1, 1), Ok(()));
    assert_eq!(quantidade(&l, 1, 1), None);
    assert_eq!(l.itens, vec![PedidoProduto { pedido_id: 1, produto_id: 2, quantidade: 1 }]);
    assert_eq!(l.pedidos[0].valor_total, 200);
}

#[test]
fn incremento_duplo_da_quantidade_dois_numa_linha() {
    let mut l = loja_com(1, &[330]);
    assert_eq!(pedido_repositorio::criar(&mut l, 1, 0, false), Ok(1));
    assert_eq!(cria_se_nao_existir_ou_atualiza_quantidade(&mut l, 1, 1), Ok(()));
    assert_eq!(cria_se_nao_existir_ou_atualiza_quantidade(&mut l, 1, 1), Ok(()));
    assert_eq!(l.itens, vec![PedidoProduto { pedido_id: 1, produto_id: 1, quantidade: 2 }]);
    assert_eq!(l.pedidos[0].valor_total, 660);
}

#[test]
fn segundo_pedido_ativo_recusado() {
    let mut l = loja_com(1, &[]);
    assert_eq!(pedido_repositorio::criar(&mut l, 1, 0, false), Ok(1));
    assert_eq!(pedido_repositorio::criar(&mut l, 1, 1, false), Err(ErroLoja::Integridade));
    assert_eq!(pedido_repositorio::criar(&mut l, 1, 2, true), Ok(2));
    assert_eq!(l.pedidos.len(), 2);
    let ativos = l.pedidos.iter().filter(|p| p.cliente_id == 1 && !p.pago).count();
    assert_eq!(ativos, 1);
}

#[test]
fn pedido_pago_nao_e_ativo() {
    let mut l = loja_com(1, &[100]);
    assert_eq!(pedido_repositorio::criar(&mut l, 1, 0, true), Ok(1));
    assert!(pedido_repositorio::ativo(&l, 1).is_none());
    assert!(adicionar(&mut l, 1, 1, 0));
    assert_eq!(l.pedidos.len(), 2);
    assert_eq!(pedido_repositorio::ativo(&l, 1).unwrap().id, 2);
}

#[test]
fn incremento_sem_pedido_nao_encontrado() {
    let mut l = loja_com(1, &[100]);
    assert_eq!(cria_se_nao_existir_ou_atualiza_quantidade(&mut l, 1, 1), Err(ErroLoja::NaoEncontrado));
    assert_eq!(pedido_repositorio::criar(&mut l, 1, 0, false), Ok(1));
    assert_eq!(cria_se_nao_existir_ou_atualiza_quantidade(&mut l, 1, 2), Err(ErroLoja::NaoEncontrado));
    assert_eq!(cria_se_nao_existir_ou_atualiza_quantidade(&mut l, 0, 1), Err(ErroLoja::NaoEncontrado));
    assert!(l.itens.is_empty());
}

#[test]
fn quantidade_no_limite_recusada() {
    let mut l = loja_com(1, &[1]);
    assert_eq!(pedido_repositorio::criar(&mut l, 1, 0, false), Ok(1));
    l.itens.push(PedidoProduto { pedido_id: 1, produto_id: 1, quantidade: u32::MAX });
    l.pedidos[0].valor_total = u32::MAX as u64;
    assert_eq!(cria_se_nao_existir_ou_atualiza_quantidade(&mut l, 1, 1), Err(ErroLoja::Persistencia));
    assert_eq!(l.itens[0].quantidade, u32::MAX);
    assert_eq!(l.pedidos[0].valor_total, u32::MAX as u64);
    assert_eq!(remove_quantidade_por_id(&mut l, 1, 1), Ok(()));
    assert_eq!(l.itens[0].quantidade, u32::MAX - 1);
    assert_eq!(l.pedidos[0].valor_total, (u32::MAX - 1) as u64);
}

#[test]
fn total_alem_do_limite_recusado() {
    let mut l = loja_com(1, &[u64::MAX]);
    assert!(adicionar(&mut l, 1, 1, 0));
    assert_eq!(l.pedidos[0].valor_total, u64::MAX);
    assert!(!adicionar(&mut l, 1, 1, 0));
    assert_eq!(cria_se_nao_existir_ou_atualiza_quantidade(&mut l, 1, 1), Err(ErroLoja::Persistencia));
    assert_eq!(l.itens, vec![PedidoProduto { pedido_id: 1, produto_id: 1, quantidade: 1 }]);
    assert_eq!(l.pedidos[0].valor_total, u64::MAX);
}

#[test]
fn carrinho_com_cliente_e_produtos() {
    let mut l = loja_com(2, &[120, 80]);
    assert!(adicionar(&mut l, 2, 2, 99));
    assert!(adicionar(&mut l, 2, 1, 99));
    assert!(adicionar(&mut l, 2, 2, 99));
    assert!(adicionar(&mut l, 1, 1, 99));
    let v = pedido_servico::ativo(&l, 2);
    assert_eq!(v.id, 1);
    assert_eq!(v.cliente_id, 2);
    assert_eq!(v.cliente.id, 2);
    assert_eq!(v.cliente.nome, "Cliente 2");
    assert_eq!(v.cliente.telefone, "555-2");
    assert_eq!(v.valor_total, 280);
    assert_eq!(v.data, 99);
    assert!(!v.pago);
    let resumo: Vec<(u32, u64, u32)> = v.produtos.iter().map(|p| (p.id, p.preco, p.quantidade)).collect();
    assert_eq!(resumo, vec![(2, 80, 2), (1, 120, 1)]);
    assert_eq!(v.produtos[0].nome, "Produto 2");
    assert_eq!(v.produtos[0].descricao, "Descricao 2");
    assert_eq!(v.produtos[0].imagem, "img2.png");
}

#[test]
fn carrinho_de_pedido_sem_itens() {
    let mut l = loja_com(1, &[120]);
    assert!(adicionar(&mut l, 1, 1, 3));
    assert!(remover_produto(&mut l, 1, 1));
    let v = pedido_repositorio::ativo_completo(&l, 1).unwrap();
    assert_eq!(v.id, 1);
    assert_eq!(v.valor_total, 0);
    assert!(v.produtos.is_empty());
}

#[test]
fn carrinho_de_cliente_sem_cadastro_vazio() {
    let mut l = loja_com(1, &[120]);
    assert!(adicionar(&mut l, 8, 1, 3));
    assert!(pedido_repositorio::ativo_completo(&l, 8).is_none());
    assert_eq!(pedido_servico::ativo(&l, 8).id, 0);
}
