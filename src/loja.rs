//! The store: clients, products, orders and line items, with the invariant
//! that ties them together, and the sums that order totals are made of.

use vstd::prelude::*;
use crate::modelos::{Cliente, Pedido, PedidoProduto, Produto};

verus! {

/// The whole relational state the storefront works on.
///
/// Products and orders get the identifiers 1, 2, 3, ... in order of
/// creation, so the record with id `k` stands at index `k - 1`.
pub struct Loja {
    pub clientes: Vec<Cliente>,
    pub produtos: Vec<Produto>,
    pub pedidos: Vec<Pedido>,
    pub itens: Vec<PedidoProduto>,
    pub proximo_cliente: u32,
}

/// Unit price of product `pid`, 0 where there is no such product (an inner
/// join drops such rows, so they add nothing).
pub open spec fn preco_produto(ps: Seq<Produto>, pid: u32) -> int {
    if 1 <= pid <= ps.len() {
        ps[pid - 1].preco as int
    } else {
        0
    }
}

/// What a line item adds to the total of order `o`.
pub open spec fn parcela(it: PedidoProduto, ps: Seq<Produto>, o: u32) -> int {
    if it.pedido_id == o {
        preco_produto(ps, it.produto_id) * it.quantidade
    } else {
        0
    }
}

/// The sum of `f` over a sequence of line items.
pub open spec fn soma_itens(its: Seq<PedidoProduto>, f: spec_fn(PedidoProduto) -> int) -> int
    decreases its.len(),
{
    if its.len() == 0 {
        0
    } else {
        soma_itens(its.drop_last(), f) + f(its.last())
    }
}

pub open spec fn f_parcela(ps: Seq<Produto>, o: u32) -> spec_fn(PedidoProduto) -> int {
    |it: PedidoProduto| parcela(it, ps, o)
}

/// The total of order `o`: sum of price times quantity over its line items.
pub open spec fn total_pedido(its: Seq<PedidoProduto>, ps: Seq<Produto>, o: u32) -> int {
    soma_itens(its, f_parcela(ps, o))
}

/// Does the line item belong to the pair (order `o`, product `p`)?
pub open spec fn do_par(it: PedidoProduto, o: u32, p: u32) -> bool {
    it.pedido_id == o && it.produto_id == p
}

pub open spec fn f_quantidade(o: u32, p: u32) -> spec_fn(PedidoProduto) -> int {
    |it: PedidoProduto|
        if do_par(it, o, p) {
            it.quantidade as int
        } else {
            0
        }
}

/// How many units of product `p` order `o` holds (0 where it has no row).
pub open spec fn quantidade(its: Seq<PedidoProduto>, o: u32, p: u32) -> int {
    soma_itens(its, f_quantidade(o, p))
}

pub open spec fn f_linha(o: u32, p: u32) -> spec_fn(PedidoProduto) -> int {
    |it: PedidoProduto|
        if do_par(it, o, p) {
            1int
        } else {
            0int
        }
}

/// How many rows the pair (order `o`, product `p`) has.
pub open spec fn linhas_do_par(its: Seq<PedidoProduto>, o: u32, p: u32) -> int {
    soma_itens(its, f_linha(o, p))
}

/// No two line items share their (order, product) pair.
pub open spec fn pares_distintos(its: Seq<PedidoProduto>) -> bool {
    forall|i: int, j: int|
        0 <= i < its.len() && 0 <= j < its.len() && i != j ==> !do_par(
            #[trigger] its[i],
            its[j].pedido_id,
            #[trigger] its[j].produto_id,
        )
}

/// Is there a row for the pair?
pub open spec fn tem_par(its: Seq<PedidoProduto>, o: u32, p: u32) -> bool {
    exists|i: int| 0 <= i < its.len() && do_par(#[trigger] its[i], o, p)
}

/// The index of the pair's row, where it has one.
pub open spec fn indice_par(its: Seq<PedidoProduto>, o: u32, p: u32) -> int {
    choose|i: int| 0 <= i < its.len() && do_par(#[trigger] its[i], o, p)
}

/// `peds` with the total of order `o` replaced by `t`.
pub open spec fn com_total(peds: Seq<Pedido>, o: u32, t: int) -> Seq<Pedido> {
    peds.update(o - 1, Pedido { valor_total: t as u64, ..peds[o - 1] })
}

impl Loja {
    /// An empty store.
    pub fn nova() -> (r: Loja)
        ensures
            r.wf(),
            r.clientes@.len() == 0,
            r.produtos@.len() == 0,
            r.pedidos@.len() == 0,
            r.itens@.len() == 0,
    {
        Loja {
            clientes: Vec::new(),
            produtos: Vec::new(),
            pedidos: Vec::new(),
            itens: Vec::new(),
            proximo_cliente: 1,
        }
    }

    pub open spec fn tem_pedido(&self, o: u32) -> bool {
        1 <= o <= self.pedidos@.len()
    }

    pub open spec fn tem_produto(&self, p: u32) -> bool {
        1 <= p <= self.produtos@.len()
    }

    /// Does client `c` have an active (unpaid) order?
    pub open spec fn tem_ativo(&self, c: u32) -> bool {
        exists|i: int|
            0 <= i < self.pedidos@.len() && #[trigger] self.pedidos@[i].cliente_id == c
                && !self.pedidos@[i].pago
    }

    /// The id of client `c`'s active order, where there is one.
    pub open spec fn id_ativo(&self, c: u32) -> u32 {
        ((choose|i: int|
            0 <= i < self.pedidos@.len() && #[trigger] self.pedidos@[i].cliente_id == c
                && !self.pedidos@[i].pago) + 1) as u32
    }

    /// Does a client with id `c` exist?
    pub open spec fn tem_cliente(&self, c: u32) -> bool {
        exists|i: int| 0 <= i < self.clientes@.len() && #[trigger] self.clientes@[i].id == c
    }

    /// The invariant of the store.
    pub open spec fn wf(&self) -> bool {
        &&& self.produtos@.len() < u32::MAX
        &&& forall|i: int| 0 <= i < self.produtos@.len() ==> #[trigger] self.produtos@[i].id == i + 1
        &&& self.pedidos@.len() < u32::MAX
        &&& forall|i: int| 0 <= i < self.pedidos@.len() ==> #[trigger] self.pedidos@[i].id == i + 1
        &&& forall|i: int|
            0 <= i < self.clientes@.len() ==> #[trigger] self.clientes@[i].id < self.proximo_cliente
        &&& forall|i: int, j: int|
            0 <= i < self.clientes@.len() && 0 <= j < self.clientes@.len() && i != j
                ==> #[trigger] self.clientes@[i].id != #[trigger] self.clientes@[j].id
        &&& forall|i: int|
            0 <= i < self.itens@.len() ==> 1 <= (#[trigger] self.itens@[i]).pedido_id
                <= self.pedidos@.len() && 1 <= self.itens@[i].produto_id <= self.produtos@.len()
                && self.itens@[i].quantidade >= 1
        &&& pares_distintos(self.itens@)
        &&& self.ativo_unico()
        &&& self.totais_corretos()
    }

    /// At most one unpaid order per client.
    pub open spec fn ativo_unico(&self) -> bool {
        forall|i: int, j: int|
            0 <= i < self.pedidos@.len() && 0 <= j < self.pedidos@.len()
                && #[trigger] self.pedidos@[i].cliente_id == #[trigger] self.pedidos@[j].cliente_id
                && !self.pedidos@[i].pago && !self.pedidos@[j].pago ==> i == j
    }

    /// Every order's stored total is the sum over its line items.
    pub open spec fn totais_corretos(&self) -> bool {
        forall|i: int|
            0 <= i < self.pedidos@.len() ==> (#[trigger] self.pedidos@[i]).valor_total
                == total_pedido(self.itens@, self.produtos@, (i + 1) as u32)
    }
}

pub proof fn lemma_soma_push(its: Seq<PedidoProduto>, x: PedidoProduto, f: spec_fn(PedidoProduto) -> int)
    ensures
        soma_itens(its.push(x), f) == soma_itens(its, f) + f(x),
{
    assert(its.push(x).drop_last() =~= its);
}

pub proof fn lemma_soma_update(
    its: Seq<PedidoProduto>,
    i: int,
    x: PedidoProduto,
    f: spec_fn(PedidoProduto) -> int,
)
    requires
        0 <= i < its.len(),
    ensures
        soma_itens(its.update(i, x), f) == soma_itens(its, f) - f(its[i]) + f(x),
    decreases its.len(),
{
    if i == its.len() - 1 {
        assert(its.update(i, x).drop_last() =~= its.drop_last());
    } else {
        lemma_soma_update(its.drop_last(), i, x, f);
        assert(its.update(i, x).drop_last() =~= its.drop_last().update(i, x));
    }
}

pub proof fn lemma_soma_remove(its: Seq<PedidoProduto>, i: int, f: spec_fn(PedidoProduto) -> int)
    requires
        0 <= i < its.len(),
    ensures
        soma_itens(its.remove(i), f) == soma_itens(its, f) - f(its[i]),
    decreases its.len(),
{
    if i == its.len() - 1 {
        assert(its.remove(i) =~= its.drop_last());
    } else {
        lemma_soma_remove(its.drop_last(), i, f);
        assert(its.remove(i).drop_last() =~= its.drop_last().remove(i));
    }
}

pub proof fn lemma_soma_zero(its: Seq<PedidoProduto>, f: spec_fn(PedidoProduto) -> int)
    requires
        forall|k: int| 0 <= k < its.len() ==> f(#[trigger] its[k]) == 0,
    ensures
        soma_itens(its, f) == 0,
    decreases its.len(),
{
    if its.len() > 0 {
        lemma_soma_zero(its.drop_last(), f);
    }
}

pub proof fn lemma_soma_nao_negativa(its: Seq<PedidoProduto>, f: spec_fn(PedidoProduto) -> int)
    requires
        forall|k: int| 0 <= k < its.len() ==> f(#[trigger] its[k]) >= 0,
    ensures
        soma_itens(its, f) >= 0,
    decreases its.len(),
{
    if its.len() > 0 {
        lemma_soma_nao_negativa(its.drop_last(), f);
    }
}

pub proof fn lemma_parcela_nao_negativa(it: PedidoProduto, ps: Seq<Produto>, o: u32)
    ensures
        parcela(it, ps, o) >= 0,
{
    let a = preco_produto(ps, it.produto_id);
    let b = it.quantidade as int;
    assert(a * b >= 0) by (nonlinear_arith)
        requires
            a >= 0,
            b >= 0,
    ;
}

pub proof fn lemma_total_nao_negativo(its: Seq<PedidoProduto>, ps: Seq<Produto>, o: u32)
    ensures
        total_pedido(its, ps, o) >= 0,
{
    assert forall|k: int| 0 <= k < its.len() implies f_parcela(ps, o)(#[trigger] its[k]) >= 0 by {
        lemma_parcela_nao_negativa(its[k], ps, o);
    }
    lemma_soma_nao_negativa(its, f_parcela(ps, o));
}

/// Where the pairs are distinct, a pair's quantity is that of its one row,
/// and it has one row; without a row both are 0.
pub proof fn lemma_par(its: Seq<PedidoProduto>, o: u32, p: u32)
    requires
        pares_distintos(its),
    ensures
        tem_par(its, o, p) ==> 0 <= indice_par(its, o, p) < its.len()
            && do_par(its[indice_par(its, o, p)], o, p)
            && quantidade(its, o, p) == its[indice_par(its, o, p)].quantidade
            && linhas_do_par(its, o, p) == 1,
        !tem_par(its, o, p) ==> quantidade(its, o, p) == 0 && linhas_do_par(its, o, p) == 0,
        forall|i: int| 0 <= i < its.len() && do_par(#[trigger] its[i], o, p) ==> i == indice_par(its, o, p),
{
    if tem_par(its, o, p) {
        let i = indice_par(its, o, p);
        let r = its.remove(i);
        lemma_soma_remove(its, i, f_quantidade(o, p));
        lemma_soma_remove(its, i, f_linha(o, p));
        assert forall|k: int| 0 <= k < r.len() implies !do_par(#[trigger] r[k], o, p) by {
            if k < i {
                assert(r[k] == its[k]);
            } else {
                assert(r[k] == its[k + 1]);
            }
        }
        assert forall|k: int| 0 <= k < r.len() implies f_quantidade(o, p)(#[trigger] r[k]) == 0 by {}
        assert forall|k: int| 0 <= k < r.len() implies f_linha(o, p)(#[trigger] r[k]) == 0 by {}
        lemma_soma_zero(r, f_quantidade(o, p));
        lemma_soma_zero(r, f_linha(o, p));
    } else {
        assert forall|k: int| 0 <= k < its.len() implies f_quantidade(o, p)(#[trigger] its[k]) == 0 by {
            if do_par(its[k], o, p) {
                assert(tem_par(its, o, p));
            }
        }
        assert forall|k: int| 0 <= k < its.len() implies f_linha(o, p)(#[trigger] its[k]) == 0 by {
            if do_par(its[k], o, p) {
                assert(tem_par(its, o, p));
            }
        }
        lemma_soma_zero(its, f_quantidade(o, p));
        lemma_soma_zero(its, f_linha(o, p));
    }
}

/// An order without line items has total 0.
pub proof fn lemma_total_sem_itens(its: Seq<PedidoProduto>, ps: Seq<Produto>, o: u32)
    requires
        forall|k: int| 0 <= k < its.len() ==> (#[trigger] its[k]).pedido_id != o,
    ensures
        total_pedido(its, ps, o) == 0,
{
    assert forall|k: int| 0 <= k < its.len() implies f_parcela(ps, o)(#[trigger] its[k]) == 0 by {}
    lemma_soma_zero(its, f_parcela(ps, o));
}

/// An unpaid order of client `c` is its active order.
pub proof fn lemma_id_ativo(l: Loja, c: u32, i: int)
    requires
        l.wf(),
        0 <= i < l.pedidos@.len(),
        l.pedidos@[i].cliente_id == c,
        !l.pedidos@[i].pago,
    ensures
        l.tem_ativo(c),
        l.id_ativo(c) == i + 1,
{
    assert(l.tem_ativo(c));
    let j = choose|j: int|
        0 <= j < l.pedidos@.len() && #[trigger] l.pedidos@[j].cliente_id == c && !l.pedidos@[j].pago;
    assert(l.pedidos@[j].cliente_id == l.pedidos@[i].cliente_id);
}

} // verus!
