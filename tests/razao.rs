use loja::modelos::{Cliente, Pedido, ProdutoView};
use loja::pedido_servico::{inicio_adicao, proxima_etapa, EtapaAdicao, EventoAdicao};
use loja::pedido_view::{agrupar, LinhaPedido};
use loja::razao::{ajuste_decremento, ajuste_incremento, valor_total, Ajuste, LinhaValor};

#[test]
fn ajustes_de_incremento() {
    assert_eq!(ajuste_incremento(None), Some(Ajuste::Inserir));
    assert_eq!(ajuste_incremento(Some(1)), Some(Ajuste::Atualizar(2)));
    assert_eq!(ajuste_incremento(Some(41)), Some(Ajuste::Atualizar(42)));
    assert_eq!(ajuste_incremento(Some(u32::MAX)), None);
}

#[test]
fn ajustes_de_decremento() {
    assert_eq!(ajuste_decremento(None), Ajuste::Nada);
    assert_eq!(ajuste_decremento(Some(1)), Ajuste::Excluir);
    assert_eq!(ajuste_decremento(Some(2)), Ajuste::Atualizar(1));
    assert_eq!(ajuste_decremento(Some(9)), Ajuste::Atualizar(8));
}

#[test]
fn valor_total_soma_preco_vezes_quantidade() {
    let linhas = vec![
        LinhaValor { preco: 1000, quantidade: 2 },
        LinhaValor { preco: 250, quantidade: 3 },
        LinhaValor { preco: 1, quantidade: 1 },
    ];
    assert_eq!(valor_total(&linhas), Some(2751));
}

#[test]
fn valor_total_sem_linhas_zero() {
    assert_eq!(valor_total(&Vec::new()), Some(0));
}

#[test]
fn valor_total_fora_do_limite() {
    assert_eq!(valor_total(&vec![LinhaValor { preco: u64::MAX, quantidade: 2 }]), None);
    assert_eq!(
        valor_total(&vec![LinhaValor { preco: u64::MAX, quantidade: 1 }, LinhaValor { preco: 1, quantidade: 1 }]),
        None
    );
    assert_eq!(valor_total(&vec![LinhaValor { preco: u64::MAX, quantidade: 1 }]), Some(u64::MAX));
}

fn linha(pedido_id: u32, produto: Option<(u32, u64, u32)>) -> LinhaPedido {
    LinhaPedido {
        pedido: Pedido { id: pedido_id, valor_total: 900, cliente_id: 4, data: 12, pago: false },
        cliente: Cliente { id: 4, nome: "Ana".to_string(), telefone: "99".to_string() },
        produto: produto.map(|(id, preco, quantidade)| ProdutoView {
            id,
            nome: format!("Item {}", id),
            descricao: String::new(),
            imagem: String::new(),
            preco,
            quantidade,
        }),
    }
}

#[test]
fn agrupar_junta_as_linhas_do_pedido() {
    let linhas = vec![
        linha(3, Some((1, 100, 2))),
        linha(3, Some((5, 700, 1))),
        linha(6, Some((2, 50, 4))),
        linha(3, Some((2, 50, 1))),
    ];
    let v = agrupar(&linhas).unwrap();
    assert_eq!(v.id, 3);
    assert_eq!(v.valor_total, 900);
    assert_eq!(v.cliente_id, 4);
    assert_eq!(v.cliente.nome, "Ana");
    assert_eq!(v.data, 12);
    let resumo: Vec<(u32, u64, u32)> = v.produtos.iter().map(|p| (p.id, p.preco, p.quantidade)).collect();
    assert_eq!(resumo, vec![(1, 100, 2), (5, 700, 1), (2, 50, 1)]);
    assert_eq!(v.produtos[1].nome, "Item 5");
}

#[test]
fn agrupar_pedido_sem_itens() {
    let v = agrupar(&vec![linha(2, None)]).unwrap();
    assert_eq!(v.id, 2);
    assert!(v.produtos.is_empty());
}

#[test]
fn agrupar_sem_linhas() {
    assert!(agrupar(&Vec::new()).is_none());
}

#[test]
fn etapas_com_pedido_existente() {
    let e = inicio_adicao();
    assert_eq!(e, EtapaAdicao::BuscarAtivo { repetida: false });
    let e = proxima_etapa(e, EventoAdicao::AtivoEncontrado(7));
    assert_eq!(e, EtapaAdicao::BuscarProduto { pedido_id: 7 });
    let e = proxima_etapa(e, EventoAdicao::Concluido);
    assert_eq!(e, EtapaAdicao::Incrementar { pedido_id: 7 });
    let e = proxima_etapa(e, EventoAdicao::Concluido);
    assert_eq!(e, EtapaAdicao::Fim { sucesso: true });
    assert_eq!(proxima_etapa(e, EventoAdicao::Falhou), e);
}

#[test]
fn etapas_criam_pedido_uma_vez() {
    let e = proxima_etapa(inicio_adicao(), EventoAdicao::SemAtivo);
    assert_eq!(e, EtapaAdicao::CriarPedido);
    let e = proxima_etapa(e, EventoAdicao::Concluido);
    assert_eq!(e, EtapaAdicao::BuscarAtivo { repetida: true });
    assert_eq!(proxima_etapa(e, EventoAdicao::SemAtivo), EtapaAdicao::Fim { sucesso: false });
    assert_eq!(proxima_etapa(e, EventoAdicao::AtivoEncontrado(2)), EtapaAdicao::BuscarProduto { pedido_id: 2 });
}

#[test]
fn etapas_falham_em_qualquer_erro() {
    let falha = EtapaAdicao::Fim { sucesso: false };
    assert_eq!(proxima_etapa(inicio_adicao(), EventoAdicao::Falhou), falha);
    assert_eq!(proxima_etapa(EtapaAdicao::CriarPedido, EventoAdicao::Falhou), falha);
    assert_eq!(proxima_etapa(EtapaAdicao::BuscarProduto { pedido_id: 1 }, EventoAdicao::Falhou), falha);
    assert_eq!(proxima_etapa(EtapaAdicao::Incrementar { pedido_id: 1 }, EventoAdicao::Falhou), falha);
    assert_eq!(proxima_etapa(EtapaAdicao::CriarPedido, EventoAdicao::SemAtivo), falha);
}
