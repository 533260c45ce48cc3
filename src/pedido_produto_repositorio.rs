//! The line-item ledger: add or remove one unit of a product in an order,
//! then recompute the order's total from all of its line items.
//!
//! Each step is atomic: the new rows and the new total are computed first,
//! and the store is changed only when both can be held.

use vstd::prelude::*;
use crate::modelos::{ErroLoja, Pedido, PedidoProduto, Produto};
use crate::razao::{Ajuste, LinhaValor, ajuste_decremento, ajuste_incremento, soma_linhas, valor_total};
use crate::loja::{
    Loja, com_total, do_par, f_parcela, indice_par, lemma_par, lemma_parcela_nao_negativa,
    lemma_soma_push, lemma_soma_remove, lemma_soma_update, lemma_total_nao_negativo, pares_distintos,
    parcela, preco_produto, quantidade, tem_par, total_pedido,
};

verus! {

/// The line items after one unit of product `p` is added to order `o`.
pub open spec fn itens_apos_incremento(its: Seq<PedidoProduto>, o: u32, p: u32) -> Seq<PedidoProduto> {
    if tem_par(its, o, p) {
        let i = indice_par(its, o, p);
        its.update(i, PedidoProduto { quantidade: (its[i].quantidade + 1) as u32, ..its[i] })
    } else {
        its.push(PedidoProduto { pedido_id: o, produto_id: p, quantidade: 1 })
    }
}

/// The line items after one unit of product `p` is taken out of order `o`.
pub open spec fn itens_apos_decremento(its: Seq<PedidoProduto>, o: u32, p: u32) -> Seq<PedidoProduto> {
    if tem_par(its, o, p) {
        let i = indice_par(its, o, p);
        if its[i].quantidade > 1 {
            its.update(i, PedidoProduto { quantidade: (its[i].quantidade - 1) as u32, ..its[i] })
        } else {
            its.remove(i)
        }
    } else {
        its
    }
}

/// Can one unit of `p` be added to order `o` of `l`?
pub open spec fn incremento_possivel(l: Loja, o: u32, p: u32) -> bool {
    &&& l.tem_pedido(o)
    &&& l.tem_produto(p)
    &&& quantidade(l.itens@, o, p) < u32::MAX
    &&& total_pedido(itens_apos_incremento(l.itens@, o, p), l.produtos@, o) <= u64::MAX
}

/// `depois` is `antes` with the line items `novos` in place of its own and the
/// total of order `o` recomputed from them.
pub open spec fn com_itens(antes: Loja, depois: Loja, o: u32, novos: Seq<PedidoProduto>) -> bool {
    &&& depois.itens@ == novos
    &&& depois.pedidos@ == com_total(antes.pedidos@, o, total_pedido(novos, antes.produtos@, o))
    &&& depois.produtos@ == antes.produtos@
    &&& depois.clientes@ == antes.clientes@
    &&& depois.proximo_cliente == antes.proximo_cliente
}

/// `depois` is `antes` after one unit of `p` was added to order `o`.
pub open spec fn incremento(antes: Loja, depois: Loja, o: u32, p: u32) -> bool {
    com_itens(antes, depois, o, itens_apos_incremento(antes.itens@, o, p))
}

/// `depois` is `antes` after one unit of `p` was taken out of order `o`: the
/// same store where the pair has no row.
pub open spec fn decremento(antes: Loja, depois: Loja, o: u32, p: u32) -> bool {
    if tem_par(antes.itens@, o, p) {
        com_itens(antes, depois, o, itens_apos_decremento(antes.itens@, o, p))
    } else {
        depois == antes
    }
}

/// The new rows of order `o` keep the store's invariant once its total is
/// recomputed, where they differ from the old ones only in rows of `o`.
proof fn lemma_com_itens_wf(antes: Loja, depois: Loja, o: u32, novos: Seq<PedidoProduto>, x: PedidoProduto)
    requires
        antes.wf(),
        antes.tem_pedido(o),
        com_itens(antes, depois, o, novos),
        total_pedido(novos, antes.produtos@, o) <= u64::MAX,
        x.pedido_id == o,
        pares_distintos(novos),
        forall|i: int|
            0 <= i < novos.len() ==> 1 <= (#[trigger] novos[i]).pedido_id <= antes.pedidos@.len()
                && 1 <= novos[i].produto_id <= antes.produtos@.len() && novos[i].quantidade >= 1,
        forall|k: u32|
            k != o ==> #[trigger] total_pedido(novos, antes.produtos@, k) == total_pedido(
                antes.itens@,
                antes.produtos@,
                k,
            ),
    ensures
        depois.wf(),
{
    lemma_total_nao_negativo(novos, antes.produtos@, o);
    assert forall|i: int| 0 <= i < depois.pedidos@.len() implies (#[trigger] depois.pedidos@[i]).valor_total
        == total_pedido(depois.itens@, depois.produtos@, (i + 1) as u32) by {
        if i != o - 1 {
            assert(depois.pedidos@[i] == antes.pedidos@[i]);
        }
    }
    assert(depois.ativo_unico());
}

/// Adding one unit changes only the rows of order `o`.
proof fn lemma_incremento_outros(its: Seq<PedidoProduto>, ps: Seq<Produto>, o: u32, p: u32, k: u32)
    requires
        pares_distintos(its),
        k != o,
    ensures
        total_pedido(itens_apos_incremento(its, o, p), ps, k) == total_pedido(its, ps, k),
{
    lemma_par(its, o, p);
    if tem_par(its, o, p) {
        let i = indice_par(its, o, p);
        lemma_soma_update(
            its,
            i,
            PedidoProduto { quantidade: (its[i].quantidade + 1) as u32, ..its[i] },
            f_parcela(ps, k),
        );
    } else {
        lemma_soma_push(its, PedidoProduto { pedido_id: o, produto_id: p, quantidade: 1 }, f_parcela(ps, k));
    }
}

/// Taking out one unit changes only the rows of order `o`, and never raises
/// the total of `o`.
proof fn lemma_decremento_totais(its: Seq<PedidoProduto>, ps: Seq<Produto>, o: u32, p: u32, k: u32)
    requires
        pares_distintos(its),
    ensures
        k != o ==> total_pedido(itens_apos_decremento(its, o, p), ps, k) == total_pedido(its, ps, k),
        total_pedido(itens_apos_decremento(its, o, p), ps, o) <= total_pedido(its, ps, o),
{
    lemma_par(its, o, p);
    if tem_par(its, o, p) {
        let i = indice_par(its, o, p);
        let it = its[i];
        if it.quantidade > 1 {
            let novo = PedidoProduto { quantidade: (it.quantidade - 1) as u32, ..it };
            lemma_soma_update(its, i, novo, f_parcela(ps, k));
            lemma_soma_update(its, i, novo, f_parcela(ps, o));
            let a = preco_produto(ps, it.produto_id);
            let q = it.quantidade as int;
            assert(a * (q - 1) <= a * q) by (nonlinear_arith)
                requires
                    a >= 0,
            ;
        } else {
            lemma_soma_remove(its, i, f_parcela(ps, k));
            lemma_soma_remove(its, i, f_parcela(ps, o));
            lemma_parcela_nao_negativa(it, ps, o);
        }
    }
}

/// A successful increment step keeps the store's invariant.
pub proof fn lemma_incremento_wf(antes: Loja, depois: Loja, o: u32, p: u32)
    requires
        antes.wf(),
        incremento_possivel(antes, o, p),
        incremento(antes, depois, o, p),
    ensures
        depois.wf(),
{
    let its = antes.itens@;
    let novos = itens_apos_incremento(its, o, p);
    lemma_par(its, o, p);
    assert forall|k: u32| k != o implies #[trigger] total_pedido(novos, antes.produtos@, k) == total_pedido(
        its,
        antes.produtos@,
        k,
    ) by {
        lemma_incremento_outros(its, antes.produtos@, o, p, k);
    }
    if tem_par(its, o, p) {
        let i = indice_par(its, o, p);
        assert forall|k: int| 0 <= k < novos.len() implies 1 <= (#[trigger] novos[k]).pedido_id
            <= antes.pedidos@.len() && 1 <= novos[k].produto_id <= antes.produtos@.len()
            && novos[k].quantidade >= 1 by {
            if k != i {
                assert(novos[k] == its[k]);
            }
        }
        assert forall|a: int, b: int| 0 <= a < novos.len() && 0 <= b < novos.len() && a != b implies !do_par(
            #[trigger] novos[a],
            novos[b].pedido_id,
            #[trigger] novos[b].produto_id,
        ) by {
            if a != i {
                assert(novos[a] == its[a]);
            }
            if b != i {
                assert(novos[b] == its[b]);
            }
        }
    } else {
        assert forall|k: int| 0 <= k < novos.len() implies 1 <= (#[trigger] novos[k]).pedido_id
            <= antes.pedidos@.len() && 1 <= novos[k].produto_id <= antes.produtos@.len()
            && novos[k].quantidade >= 1 by {
            if k < its.len() {
                assert(novos[k] == its[k]);
            }
        }
        assert forall|a: int, b: int| 0 <= a < novos.len() && 0 <= b < novos.len() && a != b implies !do_par(
            #[trigger] novos[a],
            novos[b].pedido_id,
            #[trigger] novos[b].produto_id,
        ) by {
            if a < its.len() {
                assert(novos[a] == its[a]);
            }
            if b < its.len() {
                assert(novos[b] == its[b]);
            }
            if a == its.len() {
                assert(!do_par(its[b], o, p));
            }
            if b == its.len() {
                assert(!do_par(its[a], o, p));
            }
        }
    }
    lemma_com_itens_wf(antes, depois, o, novos, PedidoProduto { pedido_id: o, produto_id: p, quantidade: 1 });
}

/// A decrement step keeps the store's invariant.
pub proof fn lemma_decremento_wf(antes: Loja, depois: Loja, o: u32, p: u32)
    requires
        antes.wf(),
        decremento(antes, depois, o, p),
    ensures
        depois.wf(),
{
    let its = antes.itens@;
    lemma_par(its, o, p);
    if tem_par(its, o, p) {
        let novos = itens_apos_decremento(its, o, p);
        let i = indice_par(its, o, p);
        let it = its[i];
        lemma_decremento_totais(its, antes.produtos@, o, p, o);
        lemma_total_nao_negativo(novos, antes.produtos@, o);
        assert(antes.pedidos@[o - 1].valor_total == total_pedido(its, antes.produtos@, o));
        assert forall|k: u32| k != o implies #[trigger] total_pedido(novos, antes.produtos@, k)
            == total_pedido(its, antes.produtos@, k) by {
            lemma_decremento_totais(its, antes.produtos@, o, p, k);
        }
        assert forall|a: int, b: int| 0 <= a < novos.len() && 0 <= b < novos.len() && a != b implies !do_par(
            #[trigger] novos[a],
            novos[b].pedido_id,
            #[trigger] novos[b].produto_id,
        ) by {
            let a0 = if it.quantidade <= 1 && a >= i { a + 1 } else { a };
            let b0 = if it.quantidade <= 1 && b >= i { b + 1 } else { b };
            if it.quantidade > 1 {
                if a != i {
                    assert(novos[a] == its[a]);
                }
                if b != i {
                    assert(novos[b] == its[b]);
                }
            } else {
                assert(novos[a] == its[a0]);
                assert(novos[b] == its[b0]);
            }
        }
        assert forall|k: int| 0 <= k < novos.len() implies 1 <= (#[trigger] novos[k]).pedido_id
            <= antes.pedidos@.len() && 1 <= novos[k].produto_id <= antes.produtos@.len()
            && novos[k].quantidade >= 1 by {
            if it.quantidade <= 1 {
                let k0 = if k < i { k } else { k + 1 };
                assert(novos[k] == its[k0]);
            } else if k != i {
                assert(novos[k] == its[k]);
            }
        }
        lemma_com_itens_wf(antes, depois, o, novos, it);
    }
}

/// Where the row of the pair sits in `its`, if it has one.
fn busca_item(its: &Vec<PedidoProduto>, o: u32, p: u32) -> (r: Option<usize>)
    ensures
        r matches Some(i) ==> i < its@.len() && do_par(its@[i as int], o, p),
        r is None ==> !tem_par(its@, o, p),
{
    let mut i: usize = 0;
    while i < its.len()
        invariant
            i <= its@.len(),
            forall|k: int| 0 <= k < i ==> !do_par(#[trigger] its@[k], o, p),
        decreases its@.len() - i,
    {
        if its[i].pedido_id == o && its[i].produto_id == p {
            return Some(i);
        }
        i = i + 1;
    }
    None
}

/// The unit price of product `p`, 0 where there is none.
fn preco_de(ps: &Vec<Produto>, p: u32) -> (r: u64)
    ensures
        r == preco_produto(ps@, p),
{
    if p >= 1 && (p as usize) <= ps.len() {
        ps[(p - 1) as usize].preco
    } else {
        0
    }
}

/// The total of order `o` over the line items `its`: the join of the rows
/// with the product prices, summed. `None` where it does not fit in `u64`.
fn total_itens(its: &Vec<PedidoProduto>, ps: &Vec<Produto>, o: u32) -> (r: Option<u64>)
    ensures
        r is Some <==> total_pedido(its@, ps@, o) <= u64::MAX,
        r matches Some(t) ==> t == total_pedido(its@, ps@, o),
{
    let mut linhas: Vec<LinhaValor> = Vec::new();
    let mut i: usize = 0;
    while i < its.len()
        invariant
            i <= its@.len(),
            soma_linhas(linhas@) == total_pedido(its@.subrange(0, i as int), ps@, o),
        decreases its@.len() - i,
    {
        let it = its[i];
        proof {
            assert(its@.subrange(0, i + 1).drop_last() =~= its@.subrange(0, i as int));
        }
        if it.pedido_id == o {
            let preco = preco_de(ps, it.produto_id);
            let ghost antes = linhas@;
            linhas.push(LinhaValor { preco, quantidade: it.quantidade });
            assert(linhas@.drop_last() =~= antes);
        }
        i = i + 1;
    }
    assert(its@.subrange(0, i as int) =~= its@);
    valor_total(&linhas)
}

/// Adds one unit of product `produto_id` to order `pedido_id`: the pair's row
/// goes up by one, or is inserted with quantity 1; then the order's total is
/// recomputed from all of its line items.
///
/// Fails with `NaoEncontrado` where the order or the product does not exist,
/// and with
/// `Persistencia` where the quantity or the total would leave its range; on
/// failure nothing changes.
pub fn cria_se_nao_existir_ou_atualiza_quantidade(loja: &mut Loja, pedido_id: u32, produto_id: u32) -> (r:
    Result<(), ErroLoja>)
    requires
        old(loja).wf(),
    ensures
        final(loja).wf(),
        r is Ok <==> incremento_possivel(*old(loja), pedido_id, produto_id),
        r is Ok ==> incremento(*old(loja), *final(loja), pedido_id, produto_id),
        r == Err::<(), ErroLoja>(ErroLoja::NaoEncontrado) <==> !old(loja).tem_pedido(pedido_id)
            || !old(loja).tem_produto(produto_id),
        r == Err::<(), ErroLoja>(ErroLoja::Persistencia) <==> old(loja).tem_pedido(pedido_id)
            && old(loja).tem_produto(produto_id) && !incremento_possivel(*old(loja), pedido_id, produto_id),
        r is Err ==> *final(loja) == *old(loja),
{
    if pedido_id == 0 || pedido_id as usize > loja.pedidos.len() || produto_id == 0
        || produto_id as usize > loja.produtos.len() {
        return Err(ErroLoja::NaoEncontrado);
    }
    let ghost antes = *loja;
    let ghost its = loja.itens@;
    proof {
        lemma_par(its, pedido_id, produto_id);
    }
    let pos = busca_item(&loja.itens, pedido_id, produto_id);
    let atual = match pos {
        Some(i) => Some(loja.itens[i].quantidade),
        None => None,
    };
    let ajuste = match ajuste_incremento(atual) {
        Some(a) => a,
        None => {
            return Err(ErroLoja::Persistencia);
        },
    };
    let mut novos = loja.itens.clone();
    assert(novos@ =~= its);
    match ajuste {
        Ajuste::Atualizar(q) => {
            if let Some(i) = pos {
                let it = novos[i];
                novos.set(i, PedidoProduto { quantidade: q, ..it });
            }
        },
        _ => {
            novos.push(PedidoProduto { pedido_id, produto_id, quantidade: 1 });
        },
    }
    assert(novos@ == itens_apos_incremento(its, pedido_id, produto_id));
    let total = match total_itens(&novos, &loja.produtos, pedido_id) {
        Some(t) => t,
        None => {
            return Err(ErroLoja::Persistencia);
        },
    };
    loja.itens = novos;
    let idx = (pedido_id - 1) as usize;
    let ped = loja.pedidos[idx];
    loja.pedidos.set(idx, Pedido { valor_total: total, ..ped });
    proof {
        lemma_incremento_wf(antes, *loja, pedido_id, produto_id);
    }
    Ok(())
}

/// Takes one unit of product `produto_id` out of order `pedido_id`: a row of
/// quantity above 1 goes down by one, a row of quantity 1 is deleted, and the
/// order's total is recomputed from the rows left (0 where none is left).
/// Where the pair has no row nothing changes. It always succeeds.
pub fn remove_quantidade_por_id(loja: &mut Loja, pedido_id: u32, produto_id: u32) -> (r: Result<(), ErroLoja>)
    requires
        old(loja).wf(),
    ensures
        final(loja).wf(),
        r is Ok,
        decremento(*old(loja), *final(loja), pedido_id, produto_id),
{
    let ghost antes = *loja;
    let ghost its = loja.itens@;
    proof {
        lemma_par(its, pedido_id, produto_id);
    }
    let pos = busca_item(&loja.itens, pedido_id, produto_id);
    let i = match pos {
        Some(i) => i,
        None => {
            return Ok(());
        },
    };
    let it = loja.itens[i];
    let mut novos = loja.itens.clone();
    assert(novos@ =~= its);
    match ajuste_decremento(Some(it.quantidade)) {
        Ajuste::Atualizar(q) => {
            novos.set(i, PedidoProduto { quantidade: q, ..it });
        },
        _ => {
            novos.remove(i);
        },
    }
    assert(novos@ == itens_apos_decremento(its, pedido_id, produto_id));
    proof {
        lemma_decremento_totais(its, antes.produtos@, pedido_id, produto_id, pedido_id);
        lemma_total_nao_negativo(novos@, antes.produtos@, pedido_id);
        assert(antes.pedidos@[pedido_id - 1].valor_total == total_pedido(its, antes.produtos@, pedido_id));
    }
    let total = match total_itens(&novos, &loja.produtos, pedido_id) {
        Some(t) => t,
        None => {
            return Err(ErroLoja::Persistencia);
        },
    };
    loja.itens = novos;
    let idx = (pedido_id - 1) as usize;
    let ped = loja.pedidos[idx];
    loja.pedidos.set(idx, Pedido { valor_total: total, ..ped });
    proof {
        lemma_decremento_wf(antes, *loja, pedido_id, produto_id);
    }
    Ok(())
}

} // verus!
