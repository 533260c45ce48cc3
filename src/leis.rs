//! Laws of the ledger and of the store, over the steps' own contracts.

use vstd::prelude::*;
use crate::loja::{Loja, indice_par, lemma_par, lemma_total_sem_itens, linhas_do_par, quantidade, tem_par, total_pedido};
use crate::pedido_produto_repositorio::{
    decremento, incremento, incremento_possivel, itens_apos_decremento, lemma_decremento_wf,
    lemma_incremento_wf,
};

verus! {

/// One change of the line-item ledger.
pub enum Operacao {
    Incremento { pedido_id: u32, produto_id: u32 },
    Decremento { pedido_id: u32, produto_id: u32 },
}

/// `depois` is what the ledger step `op` leaves of `antes`, as the steps'
/// contracts state it: an increment that cannot be made changes nothing.
pub open spec fn passo(antes: Loja, depois: Loja, op: Operacao) -> bool {
    match op {
        Operacao::Incremento { pedido_id, produto_id } => if incremento_possivel(antes, pedido_id, produto_id) {
            incremento(antes, depois, pedido_id, produto_id)
        } else {
            depois == antes
        },
        Operacao::Decremento { pedido_id, produto_id } => decremento(antes, depois, pedido_id, produto_id),
    }
}

/// Every order's total is the sum of price times quantity over its line
/// items, and 0 for an order with none.
pub open spec fn totais_em_dia(l: Loja) -> bool {
    &&& forall|i: int|
        0 <= i < l.pedidos@.len() ==> (#[trigger] l.pedidos@[i]).valor_total == total_pedido(
            l.itens@,
            l.produtos@,
            (i + 1) as u32,
        )
    &&& forall|i: int|
        0 <= i < l.pedidos@.len() && (forall|k: int|
            0 <= k < l.itens@.len() ==> (#[trigger] l.itens@[k]).pedido_id != i + 1) ==> (#[trigger] l.pedidos@[i]).valor_total == 0
}

/// In a valid store every order's total is up to date.
pub proof fn lemma_totais_em_dia(l: Loja)
    requires
        l.wf(),
    ensures
        totais_em_dia(l),
{
    assert forall|i: int|
        0 <= i < l.pedidos@.len() && (forall|k: int|
            0 <= k < l.itens@.len() ==> (#[trigger] l.itens@[k]).pedido_id != i + 1) implies (#[trigger] l.pedidos@[i]).valor_total == 0 by {
        lemma_total_sem_itens(l.itens@, l.produtos@, (i + 1) as u32);
    }
}

/// Total correctness: after every step of any sequence of increments and
/// decrements, starting from a valid store, each order's total equals the sum
/// of price times quantity over its current line items, and 0 where it has
/// none left.
pub proof fn lei_totais(estados: Seq<Loja>, ops: Seq<Operacao>)
    requires
        estados.len() == ops.len() + 1,
        estados[0].wf(),
        forall|i: int| 0 <= i < ops.len() ==> passo(estados[i], estados[i + 1], #[trigger] ops[i]),
    ensures
        forall|i: int| 0 <= i < estados.len() ==> #[trigger] estados[i].wf() && totais_em_dia(estados[i]),
    decreases ops.len(),
{
    if ops.len() > 0 {
        let n = ops.len() - 1;
        lei_totais(estados.drop_last(), ops.drop_last());
        assert(estados.drop_last()[n as int].wf());
        assert(passo(estados[n as int], estados[n + 1], ops[n as int]));
        match ops[n as int] {
            Operacao::Incremento { pedido_id, produto_id } => {
                if incremento_possivel(estados[n as int], pedido_id, produto_id) {
                    lemma_incremento_wf(estados[n as int], estados[n + 1], pedido_id, produto_id);
                }
            },
            Operacao::Decremento { pedido_id, produto_id } => {
                lemma_decremento_wf(estados[n as int], estados[n + 1], pedido_id, produto_id);
            },
        }
        assert forall|i: int| 0 <= i < estados.len() implies #[trigger] estados[i].wf() && totais_em_dia(estados[i]) by {
            if i < estados.len() - 1 {
                assert(estados[i] == estados.drop_last()[i]);
            }
            lemma_totais_em_dia(estados[i]);
        }
    } else {
        lemma_totais_em_dia(estados[0]);
    }
}

/// Quantity floor: taking a unit out of a pair with quantity 1 deletes its
/// row; out of a pair with more, lowers it by one and keeps one row; out of a
/// pair without a row, changes nothing.
pub proof fn lei_piso_quantidade(antes: Loja, depois: Loja, o: u32, p: u32)
    requires
        antes.wf(),
        decremento(antes, depois, o, p),
    ensures
        quantidade(antes.itens@, o, p) == 1 ==> linhas_do_par(depois.itens@, o, p) == 0 && quantidade(
            depois.itens@,
            o,
            p,
        ) == 0,
        quantidade(antes.itens@, o, p) > 1 ==> linhas_do_par(depois.itens@, o, p) == 1 && quantidade(
            depois.itens@,
            o,
            p,
        ) == quantidade(antes.itens@, o, p) - 1,
        !tem_par(antes.itens@, o, p) ==> depois == antes,
{
    let its = antes.itens@;
    lemma_par(its, o, p);
    lemma_decremento_wf(antes, depois, o, p);
    let novos = depois.itens@;
    lemma_par(novos, o, p);
    if tem_par(its, o, p) {
        let i = indice_par(its, o, p);
        if its[i].quantidade > 1 {
            assert(do_par_em(novos, i, o, p));
        } else {
            assert forall|k: int| 0 <= k < novos.len() implies !crate::loja::do_par(#[trigger] novos[k], o, p) by {
                let k0 = if k < i { k } else { k + 1 };
                assert(novos[k] == its[k0]);
            }
        }
    }
}

spec fn do_par_em(its: Seq<crate::modelos::PedidoProduto>, i: int, o: u32, p: u32) -> bool {
    0 <= i < its.len() && crate::loja::do_par(its[i], o, p)
}

/// An increment raises the pair's quantity by one and leaves it one row.
pub proof fn lei_incremento(antes: Loja, depois: Loja, o: u32, p: u32)
    requires
        antes.wf(),
        incremento_possivel(antes, o, p),
        incremento(antes, depois, o, p),
    ensures
        depois.wf(),
        quantidade(depois.itens@, o, p) == quantidade(antes.itens@, o, p) + 1,
        linhas_do_par(depois.itens@, o, p) == 1,
{
    let its = antes.itens@;
    lemma_par(its, o, p);
    lemma_incremento_wf(antes, depois, o, p);
    let novos = depois.itens@;
    lemma_par(novos, o, p);
    if tem_par(its, o, p) {
        assert(do_par_em(novos, indice_par(its, o, p), o, p));
    } else {
        assert(do_par_em(novos, its.len() as int, o, p));
    }
}

/// Increment monotonicity: two increments of a pair that had no row leave it
/// with quantity 2 in exactly one row.
pub proof fn lei_incremento_duplo(l0: Loja, l1: Loja, l2: Loja, o: u32, p: u32)
    requires
        l0.wf(),
        !tem_par(l0.itens@, o, p),
        incremento_possivel(l0, o, p),
        incremento(l0, l1, o, p),
        incremento_possivel(l1, o, p),
        incremento(l1, l2, o, p),
    ensures
        quantidade(l2.itens@, o, p) == 2,
        linhas_do_par(l2.itens@, o, p) == 1,
{
    lemma_par(l0.itens@, o, p);
    lei_incremento(l0, l1, o, p);
    lei_incremento(l1, l2, o, p);
}

/// Active-order uniqueness: in a valid store (and every step of the store
/// keeps it valid) no client has two unpaid orders.
pub proof fn lei_ativo_unico(l: Loja, c: u32)
    requires
        l.wf(),
    ensures
        forall|i: int, j: int|
            0 <= i < l.pedidos@.len() && 0 <= j < l.pedidos@.len() && #[trigger] l.pedidos@[i].cliente_id == c
                && #[trigger] l.pedidos@[j].cliente_id == c && !l.pedidos@[i].pago && !l.pedidos@[j].pago ==> i == j,
{
}

} // verus!
