//! The order store: create an order, find a client's active order, and build
//! the view of an active order with its client and products.

use vstd::prelude::*;
use crate::modelos::{Cliente, ErroLoja, Pedido, PedidoView, ProdutoView, modelo_produto, modelo_produtos};
use crate::loja::{Loja, lemma_total_sem_itens};

verus! {

/// `depois` is `antes` with the order `(id = len + 1, total 0, c, data, pago)`
/// appended and nothing else changed.
pub open spec fn criacao(antes: Loja, depois: Loja, c: u32, data: i64, pago: bool) -> bool {
    &&& depois.pedidos@ == antes.pedidos@.push(
        Pedido { id: (antes.pedidos@.len() + 1) as u32, valor_total: 0, cliente_id: c, data, pago },
    )
    &&& depois.itens@ == antes.itens@
    &&& depois.produtos@ == antes.produtos@
    &&& depois.clientes@ == antes.clientes@
    &&& depois.proximo_cliente == antes.proximo_cliente
}

/// The (product id, unit price, quantity) of each line item of order `o` whose
/// product exists, in the order of the rows.
pub open spec fn produtos_do_pedido(its: Seq<crate::modelos::PedidoProduto>, ps: Seq<crate::modelos::Produto>, o: u32) -> Seq<(u32, u64, u32)>
    decreases its.len(),
{
    if its.len() == 0 {
        Seq::empty()
    } else {
        let resto = produtos_do_pedido(its.drop_last(), ps, o);
        let it = its.last();
        if it.pedido_id == o && 1 <= it.produto_id <= ps.len() {
            resto.push((it.produto_id, ps[it.produto_id - 1].preco, it.quantidade))
        } else {
            resto
        }
    }
}

/// The product texts of a view are those of the catalog.
pub open spec fn textos_do_catalogo(vs: Seq<ProdutoView>, ps: Seq<crate::modelos::Produto>) -> bool {
    forall|k: int|
        0 <= k < vs.len() ==> 1 <= (#[trigger] vs[k]).id <= ps.len() && vs[k].nome == ps[vs[k].id - 1].nome
            && vs[k].descricao == ps[vs[k].id - 1].descricao && vs[k].imagem == ps[vs[k].id - 1].imagem
}

/// `v` is the view of client `c`'s active order in `l`.
pub open spec fn view_do_ativo(l: Loja, c: u32, v: PedidoView) -> bool {
    let o = l.id_ativo(c);
    let p = l.pedidos@[o - 1];
    &&& v.id == o
    &&& v.valor_total == p.valor_total
    &&& v.cliente_id == c
    &&& v.data == p.data
    &&& !v.pago
    &&& v.cliente.id == c
    &&& exists|i: int| 0 <= i < l.clientes@.len() && #[trigger] l.clientes@[i] == v.cliente
    &&& modelo_produtos(v.produtos@) == produtos_do_pedido(l.itens@, l.produtos@, o)
    &&& textos_do_catalogo(v.produtos@, l.produtos@)
}

/// Client `c`'s active order, found by a scan of the orders.
pub fn ativo(loja: &Loja, cliente_id: u32) -> (r: Option<Pedido>)
    requires
        loja.wf(),
    ensures
        r is Some <==> loja.tem_ativo(cliente_id),
        r matches Some(p) ==> p == loja.pedidos@[loja.id_ativo(cliente_id) - 1] && p.id == loja.id_ativo(
            cliente_id,
        ) && 1 <= p.id <= loja.pedidos@.len() && p.cliente_id == cliente_id && !p.pago,
{
    let mut i: usize = 0;
    while i < loja.pedidos.len()
        invariant
            loja.wf(),
            i <= loja.pedidos@.len(),
            forall|k: int|
                0 <= k < i ==> !(#[trigger] loja.pedidos@[k].cliente_id == cliente_id
                    && !loja.pedidos@[k].pago),
        decreases loja.pedidos@.len() - i,
    {
        let p = loja.pedidos[i];
        if p.cliente_id == cliente_id && !p.pago {
            assert(loja.tem_ativo(cliente_id));
            proof {
                let j = choose|j: int|
                    0 <= j < loja.pedidos@.len() && #[trigger] loja.pedidos@[j].cliente_id == cliente_id
                        && !loja.pedidos@[j].pago;
                assert(loja.pedidos@[j].cliente_id == loja.pedidos@[i as int].cliente_id);
                assert(j == i);
                assert(loja.id_ativo(cliente_id) == i + 1);
            }
            return Some(p);
        }
        i = i + 1;
    }
    None
}

/// Creates an order for client `cliente_id` with total 0 and no line items;
/// returns its id.
///
/// Fails with `Integridade` where the order would be a second active order of
/// the client, and with `Persistencia` where no id is left; on failure nothing
/// changes.
pub fn criar(loja: &mut Loja, cliente_id: u32, data: i64, pago: bool) -> (r: Result<u32, ErroLoja>)
    requires
        old(loja).wf(),
    ensures
        final(loja).wf(),
        r == Err::<u32, ErroLoja>(ErroLoja::Integridade) <==> !pago && old(loja).tem_ativo(cliente_id),
        r == Err::<u32, ErroLoja>(ErroLoja::Persistencia) <==> !(!pago && old(loja).tem_ativo(cliente_id))
            && old(loja).pedidos@.len() + 1 >= u32::MAX,
        r is Ok <==> !(!pago && old(loja).tem_ativo(cliente_id)) && old(loja).pedidos@.len() + 1 < u32::MAX,
        r is Err ==> *final(loja) == *old(loja),
        r matches Ok(id) ==> id == old(loja).pedidos@.len() + 1 && criacao(*old(loja), *final(loja), cliente_id, data, pago),
{
    if !pago {
        if let Some(_) = ativo(loja, cliente_id) {
            return Err(ErroLoja::Integridade);
        }
    }
    if loja.pedidos.len() >= (u32::MAX - 1) as usize {
        return Err(ErroLoja::Persistencia);
    }
    let ghost antes = *loja;
    let id = (loja.pedidos.len() + 1) as u32;
    loja.pedidos.push(Pedido { id, valor_total: 0, cliente_id, data, pago });
    proof {
        lemma_total_sem_itens(antes.itens@, antes.produtos@, id);
        assert forall|i: int| 0 <= i < loja.pedidos@.len() implies (#[trigger] loja.pedidos@[i]).valor_total
            == crate::loja::total_pedido(loja.itens@, loja.produtos@, (i + 1) as u32) by {
            if i < antes.pedidos@.len() {
                assert(loja.pedidos@[i] == antes.pedidos@[i]);
            }
        }
        assert(loja.ativo_unico()) by {
            assert forall|i: int, j: int|
                0 <= i < loja.pedidos@.len() && 0 <= j < loja.pedidos@.len()
                    && #[trigger] loja.pedidos@[i].cliente_id == #[trigger] loja.pedidos@[j].cliente_id
                    && !loja.pedidos@[i].pago && !loja.pedidos@[j].pago implies i == j by {
                if i == antes.pedidos@.len() && j < antes.pedidos@.len() {
                    assert(antes.pedidos@[j] == loja.pedidos@[j]);
                    assert(antes.tem_ativo(cliente_id));
                }
                if j == antes.pedidos@.len() && i < antes.pedidos@.len() {
                    assert(antes.pedidos@[i] == loja.pedidos@[i]);
                    assert(antes.tem_ativo(cliente_id));
                }
            }
        }
    }
    Ok(id)
}

/// A copy of the client record.
pub fn copia_cliente(c: &Cliente) -> (r: Cliente)
    ensures
        r == *c,
{
    Cliente { id: c.id, nome: c.nome.clone(), telefone: c.telefone.clone() }
}

/// Where the client with id `c` stands, if anywhere.
pub fn busca_cliente(clientes: &Vec<Cliente>, c: u32) -> (r: Option<usize>)
    ensures
        r matches Some(i) ==> i < clientes@.len() && clientes@[i as int].id == c,
        r is None ==> forall|k: int| 0 <= k < clientes@.len() ==> #[trigger] clientes@[k].id != c,
{
    let mut i: usize = 0;
    while i < clientes.len()
        invariant
            i <= clientes@.len(),
            forall|k: int| 0 <= k < i ==> #[trigger] clientes@[k].id != c,
        decreases clientes@.len() - i,
    {
        if clientes[i].id == c {
            return Some(i);
        }
        i = i + 1;
    }
    None
}

/// Client `cliente_id`'s active order joined with the client record and with
/// one entry per line item whose product exists; `None` where the client has
/// no active order or no record.
pub fn ativo_completo(loja: &Loja, cliente_id: u32) -> (r: Option<PedidoView>)
    requires
        loja.wf(),
    ensures
        r is Some <==> loja.tem_ativo(cliente_id) && loja.tem_cliente(cliente_id),
        r matches Some(v) ==> view_do_ativo(*loja, cliente_id, v),
{
    let pedido = match ativo(loja, cliente_id) {
        Some(p) => p,
        None => {
            return None;
        },
    };
    let ci = match busca_cliente(&loja.clientes, cliente_id) {
        Some(ci) => ci,
        None => {
            return None;
        },
    };
    let cliente = copia_cliente(&loja.clientes[ci]);
    let o = pedido.id;
    let mut produtos: Vec<ProdutoView> = Vec::new();
    let mut i: usize = 0;
    while i < loja.itens.len()
        invariant
            loja.wf(),
            i <= loja.itens@.len(),
            modelo_produtos(produtos@) == produtos_do_pedido(loja.itens@.subrange(0, i as int), loja.produtos@, o),
            textos_do_catalogo(produtos@, loja.produtos@),
        decreases loja.itens@.len() - i,
    {
        let it = loja.itens[i];
        proof {
            assert(loja.itens@.subrange(0, i + 1).drop_last() =~= loja.itens@.subrange(0, i as int));
        }
        if it.pedido_id == o && it.produto_id >= 1 && (it.produto_id as usize) <= loja.produtos.len() {
            let pr = &loja.produtos[(it.produto_id - 1) as usize];
            let ghost antes = produtos@;
            produtos.push(
                ProdutoView {
                    id: it.produto_id,
                    nome: pr.nome.clone(),
                    descricao: pr.descricao.clone(),
                    imagem: pr.imagem.clone(),
                    preco: pr.preco,
                    quantidade: it.quantidade,
                },
            );
            proof {
                assert(modelo_produtos(produtos@) =~= modelo_produtos(antes).push(
                    modelo_produto(produtos@.last()),
                ));
            }
        }
        i = i + 1;
    }
    assert(loja.itens@.subrange(0, i as int) =~= loja.itens@);
    Some(
        PedidoView {
            id: o,
            valor_total: pedido.valor_total,
            cliente_id,
            data: pedido.data,
            pago: pedido.pago,
            cliente,
            produtos,
        },
    )
}

} // verus!
