//! Grouping the rows of the joined order query into one order view.

use vstd::prelude::*;
use crate::modelos::{Cliente, Pedido, PedidoView, ProdutoView};
use crate::pedido_repositorio::copia_cliente;

verus! {

/// One row of the query that joins an order with its client and (where the
/// order has any) one of its line items with the item's product.
pub struct LinhaPedido {
    pub pedido: Pedido,
    pub cliente: Cliente,
    pub produto: Option<ProdutoView>,
}

/// The products of the rows that belong to order `o`, in the order of the
/// rows; rows without a product add nothing.
pub open spec fn produtos_das_linhas(ls: Seq<LinhaPedido>, o: u32) -> Seq<ProdutoView>
    decreases ls.len(),
{
    if ls.len() == 0 {
        Seq::empty()
    } else {
        let resto = produtos_das_linhas(ls.drop_last(), o);
        let l = ls.last();
        if l.pedido.id == o && l.produto is Some {
            resto.push(l.produto->0)
        } else {
            resto
        }
    }
}

/// A copy of a product view.
pub fn copia_produto_view(p: &ProdutoView) -> (r: ProdutoView)
    ensures
        r == *p,
{
    ProdutoView {
        id: p.id,
        nome: p.nome.clone(),
        descricao: p.descricao.clone(),
        imagem: p.imagem.clone(),
        preco: p.preco,
        quantidade: p.quantidade,
    }
}

/// Groups the joined rows by order: the view of the first row's order, its
/// client, and the product of every row of that order, in row order. Rows of
/// any other order are left out. `None` where there are no rows.
pub fn agrupar(linhas: &Vec<LinhaPedido>) -> (r: Option<PedidoView>)
    ensures
        r is Some <==> linhas@.len() > 0,
        r matches Some(v) ==> v.id == linhas@[0].pedido.id && v.valor_total == linhas@[0].pedido.valor_total
            && v.cliente_id == linhas@[0].pedido.cliente_id && v.data == linhas@[0].pedido.data && v.pago
            == linhas@[0].pedido.pago && v.cliente == linhas@[0].cliente && v.produtos@ == produtos_das_linhas(
            linhas@,
            linhas@[0].pedido.id,
        ),
{
    if linhas.len() == 0 {
        return None;
    }
    let cabeca = &linhas[0];
    let o = cabeca.pedido.id;
    let mut produtos: Vec<ProdutoView> = Vec::new();
    let mut i: usize = 0;
    while i < linhas.len()
        invariant
            i <= linhas@.len(),
            produtos@ == produtos_das_linhas(linhas@.subrange(0, i as int), o),
        decreases linhas@.len() - i,
    {
        proof {
            assert(linhas@.subrange(0, i + 1).drop_last() =~= linhas@.subrange(0, i as int));
        }
        let l = &linhas[i];
        if l.pedido.id == o {
            match &l.produto {
                Some(p) => {
                    produtos.push(copia_produto_view(p));
                },
                None => {},
            }
        }
        i = i + 1;
    }
    assert(linhas@.subrange(0, i as int) =~= linhas@);
    Some(
        PedidoView {
            id: o,
            valor_total: cabeca.pedido.valor_total,
            cliente_id: cabeca.pedido.cliente_id,
            data: cabeca.pedido.data,
            pago: cabeca.pedido.pago,
            cliente: copia_cliente(&cabeca.cliente),
            produtos,
        },
    )
}

} // verus!
