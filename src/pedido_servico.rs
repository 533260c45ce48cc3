//! The cart: add a product to a client's active order (creating the order
//! where the client has none), take a product out, and show the cart.

use vstd::prelude::*;
use crate::modelos::{Pedido, PedidoView};
use crate::loja::{Loja, com_total, lemma_id_ativo, quantidade, total_pedido};
use crate::pedido_produto_repositorio::{
    cria_se_nao_existir_ou_atualiza_quantidade, decremento, itens_apos_incremento,
    remove_quantidade_por_id,
};
use crate::pedido_repositorio::{ativo_completo, view_do_ativo};
use crate::{pedido_repositorio, produto_repositorio};

verus! {

/// Can client `c` be given an active order: it has one, or an id is left?
pub open spec fn pode_garantir(l: Loja, c: u32) -> bool {
    l.tem_ativo(c) || l.pedidos@.len() + 1 < u32::MAX
}

/// The orders once client `c` is sure to have an active order: unchanged
/// where it has one, else with a new empty unpaid order created at `agora`.
pub open spec fn pedidos_garantidos(l: Loja, c: u32, agora: i64) -> Seq<Pedido> {
    if l.tem_ativo(c) {
        l.pedidos@
    } else {
        l.pedidos@.push(
            Pedido {
                id: (l.pedidos@.len() + 1) as u32,
                valor_total: 0,
                cliente_id: c,
                data: agora,
                pago: false,
            },
        )
    }
}

/// The id of client `c`'s active order once it is sure to have one.
pub open spec fn id_garantido(l: Loja, c: u32) -> u32 {
    if l.tem_ativo(c) {
        l.id_ativo(c)
    } else {
        (l.pedidos@.len() + 1) as u32
    }
}

/// Does adding product `p` to client `c`'s cart succeed on `l`?
pub open spec fn adicao_possivel(l: Loja, c: u32, p: u32) -> bool {
    let o = id_garantido(l, c);
    &&& pode_garantir(l, c)
    &&& l.tem_produto(p)
    &&& quantidade(l.itens@, o, p) < u32::MAX
    &&& total_pedido(itens_apos_incremento(l.itens@, o, p), l.produtos@, o) <= u64::MAX
}

/// Adds one unit of product `produto_id` to client `cliente_id`'s active
/// order. Where the client has none, one is created first (total 0, created
/// at `agora`, unpaid) and the lookup is made once more; where it cannot be
/// created the call fails and nothing changes. Then the product must exist,
/// and the ledger step must succeed. Returns whether the unit was added.
///
/// At most one order is created, and only where the client had no active
/// order; the line items change only on success.
pub fn adicionar(loja: &mut Loja, cliente_id: u32, produto_id: u32, agora: i64) -> (r: bool)
    requires
        old(loja).wf(),
    ensures
        final(loja).wf(),
        r <==> adicao_possivel(*old(loja), cliente_id, produto_id),
        !pode_garantir(*old(loja), cliente_id) ==> *final(loja) == *old(loja),
        old(loja).tem_ativo(cliente_id) ==> final(loja).pedidos@.len() == old(loja).pedidos@.len(),
        !old(loja).tem_ativo(cliente_id) && pode_garantir(*old(loja), cliente_id) ==> final(loja).pedidos@.len() == old(loja).pedidos@.len() + 1,
        pode_garantir(*old(loja), cliente_id) ==> final(loja).tem_ativo(cliente_id) && final(loja).id_ativo(cliente_id) == id_garantido(*old(loja), cliente_id),
        r ==> final(loja).itens@ == itens_apos_incremento(
            old(loja).itens@,
            id_garantido(*old(loja), cliente_id),
            produto_id,
        ) && final(loja).pedidos@ == com_total(
            pedidos_garantidos(*old(loja), cliente_id, agora),
            id_garantido(*old(loja), cliente_id),
            total_pedido(
                final(loja).itens@,
                old(loja).produtos@,
                id_garantido(*old(loja), cliente_id),
            ),
        ),
        !r && pode_garantir(*old(loja), cliente_id) ==> final(loja).itens@ == old(loja).itens@
            && final(loja).pedidos@ == pedidos_garantidos(*old(loja), cliente_id, agora),
        final(loja).produtos@ == old(loja).produtos@,
        final(loja).clientes@ == old(loja).clientes@,
        final(loja).proximo_cliente == old(loja).proximo_cliente,
{
    let ghost antes = *loja;
    let pedido = match pedido_repositorio::ativo(loja, cliente_id) {
        Some(p) => p,
        None => {
            match pedido_repositorio::criar(loja, cliente_id, agora, false) {
                Ok(_) => {},
                Err(_) => {
                    return false;
                },
            }
            match pedido_repositorio::ativo(loja, cliente_id) {
                Some(p) => {
                    proof {
                        let n = antes.pedidos@.len();
                        if p.id - 1 < n {
                            assert(antes.pedidos@[p.id - 1] == loja.pedidos@[p.id - 1]);
                            assert(antes.tem_ativo(cliente_id));
                        }
                    }
                    p
                },
                None => {
                    assert(loja.pedidos@[antes.pedidos@.len() as int].cliente_id == cliente_id);
                    return false;
                },
            }
        },
    };
    let ghost meio = *loja;
    assert(meio.pedidos@ == pedidos_garantidos(antes, cliente_id, agora));
    assert(pedido.id == id_garantido(antes, cliente_id));
    if produto_repositorio::buscar_por_id(loja, produto_id).is_err() {
        return false;
    }
    let ok = match cria_se_nao_existir_ou_atualiza_quantidade(loja, pedido.id, produto_id) {
        Ok(()) => true,
        Err(_) => false,
    };
    proof {
        lemma_id_ativo(*loja, cliente_id, pedido.id - 1);
    }
    ok
}

/// Takes one unit of product `produto_id` out of order `pedido_id` (see the
/// ledger's decrement step); taking out what the order does not hold changes
/// nothing. Always reports success.
pub fn remover_produto(loja: &mut Loja, pedido_id: u32, produto_id: u32) -> (r: bool)
    requires
        old(loja).wf(),
    ensures
        final(loja).wf(),
        r,
        decremento(*old(loja), *final(loja), pedido_id, produto_id),
{
    match remove_quantidade_por_id(loja, pedido_id, produto_id) {
        Ok(()) => true,
        Err(_) => false,
    }
}

/// The cart of client `cliente_id`: the view of its active order, or the
/// empty view (id 0, total 0, no client, no products) where there is none.
pub fn ativo(loja: &Loja, cliente_id: u32) -> (r: PedidoView)
    requires
        loja.wf(),
    ensures
        loja.tem_ativo(cliente_id) && loja.tem_cliente(cliente_id) ==> view_do_ativo(*loja, cliente_id, r),
        !(loja.tem_ativo(cliente_id) && loja.tem_cliente(cliente_id)) ==> r.id == 0 && r.valor_total == 0
            && r.cliente_id == 0 && r.cliente.id == 0 && r.produtos@.len() == 0 && !r.pago,
{
    match ativo_completo(loja, cliente_id) {
        Some(v) => v,
        None => PedidoView::default(),
    }
}

/// Where a call that adds a product to a client's cart stands, when the store
/// is reached step by step from outside.
#[derive(Clone, Copy, Debug, PartialEq, Eq, Structural)]
pub enum EtapaAdicao {
    /// Look up the client's active order; `repetida` once an order was
    /// created for this call.
    BuscarAtivo { repetida: bool },
    /// Create an empty unpaid order for the client.
    CriarPedido,
    /// Check that the product exists.
    BuscarProduto { pedido_id: u32 },
    /// Add one unit of the product to the order's ledger.
    Incrementar { pedido_id: u32 },
    /// The call is over, with its outcome.
    Fim { sucesso: bool },
}

/// What the last step returned.
#[derive(Clone, Copy, Debug, PartialEq, Eq, Structural)]
pub enum EventoAdicao {
    /// The lookup found the active order with this id.
    AtivoEncontrado(u32),
    /// The lookup found no active order.
    SemAtivo,
    /// The creation, product check or ledger step succeeded.
    Concluido,
    /// The step failed.
    Falhou,
}

/// How many steps are left at most; every step lowers it until the end.
pub open spec fn passos_restantes(e: EtapaAdicao) -> nat {
    match e {
        EtapaAdicao::BuscarAtivo { repetida } => if repetida {
            3
        } else {
            5
        },
        EtapaAdicao::CriarPedido => 4,
        EtapaAdicao::BuscarProduto { .. } => 2,
        EtapaAdicao::Incrementar { .. } => 1,
        EtapaAdicao::Fim { .. } => 0,
    }
}

/// The first step of a call.
pub fn inicio_adicao() -> (r: EtapaAdicao)
    ensures
        r == (EtapaAdicao::BuscarAtivo { repetida: false }),
{
    EtapaAdicao::BuscarAtivo { repetida: false }
}

/// The next step of adding a product to a cart, given what the current step
/// returned: a found order leads to the product check and then to the ledger;
/// a first missing order to its creation and one more lookup; a second missing
/// order, any failure, or an answer that does not fit the step ends the call
/// in failure; only a successful ledger step ends it in success.
pub fn proxima_etapa(etapa: EtapaAdicao, evento: EventoAdicao) -> (r: EtapaAdicao)
    ensures
        etapa is BuscarAtivo && evento is AtivoEncontrado ==> r == (EtapaAdicao::BuscarProduto {
            pedido_id: evento->AtivoEncontrado_0,
        }),
        etapa == (EtapaAdicao::BuscarAtivo { repetida: false }) && evento == EventoAdicao::SemAtivo ==> r
            == EtapaAdicao::CriarPedido,
        etapa == EtapaAdicao::CriarPedido && evento == EventoAdicao::Concluido ==> r == (
        EtapaAdicao::BuscarAtivo { repetida: true }),
        etapa is BuscarProduto && evento == EventoAdicao::Concluido ==> r == (EtapaAdicao::Incrementar {
            pedido_id: etapa->BuscarProduto_pedido_id,
        }),
        etapa is Incrementar && evento == EventoAdicao::Concluido ==> r == (EtapaAdicao::Fim { sucesso: true }),
        etapa is Fim ==> r == etapa,
        !(etapa is Fim) && !(etapa is BuscarAtivo && evento is AtivoEncontrado) && !(etapa == (
        EtapaAdicao::BuscarAtivo { repetida: false }) && evento == EventoAdicao::SemAtivo) && !(
        !(etapa is BuscarAtivo) && evento == EventoAdicao::Concluido) ==> r == (EtapaAdicao::Fim { sucesso: false }),
        etapa is BuscarAtivo && evento == EventoAdicao::Concluido ==> r == (EtapaAdicao::Fim { sucesso: false }),
        !(etapa is Fim) ==> passos_restantes(r) < passos_restantes(etapa),
{
    match (etapa, evento) {
        (EtapaAdicao::Fim { .. }, _) => etapa,
        (EtapaAdicao::BuscarAtivo { .. }, EventoAdicao::AtivoEncontrado(id)) => EtapaAdicao::BuscarProduto {
            pedido_id: id,
        },
        (EtapaAdicao::BuscarAtivo { repetida: false }, EventoAdicao::SemAtivo) => EtapaAdicao::CriarPedido,
        (EtapaAdicao::CriarPedido, EventoAdicao::Concluido) => EtapaAdicao::BuscarAtivo { repetida: true },
        (EtapaAdicao::BuscarProduto { pedido_id }, EventoAdicao::Concluido) => EtapaAdicao::Incrementar {
            pedido_id,
        },
        (EtapaAdicao::Incrementar { .. }, EventoAdicao::Concluido) => EtapaAdicao::Fim { sucesso: true },
        _ => EtapaAdicao::Fim { sucesso: false },
    }
}

/// A call creates at most one order: once an order was created, no later step
/// of the same call creates another.
pub proof fn lei_uma_criacao(etapas: Seq<EtapaAdicao>, eventos: Seq<EventoAdicao>, i: int, j: int)
    requires
        etapas.len() == eventos.len() + 1,
        forall|k: int|
            0 <= k < eventos.len() ==> !(etapas[k] is Fim) ==> passos_restantes(#[trigger] etapas[k + 1])
                < passos_restantes(etapas[k]),
        forall|k: int| 0 <= k < eventos.len() ==> etapas[k] is Fim ==> #[trigger] etapas[k + 1] == etapas[k],
        0 <= i < j < etapas.len(),
        etapas[i] == EtapaAdicao::CriarPedido,
    ensures
        etapas[j] != EtapaAdicao::CriarPedido,
    decreases j - i,
{
    if j > i + 1 {
        lei_uma_criacao(etapas, eventos, i, j - 1);
        lemma_passos_caem(etapas, eventos, i, j - 1);
        assert(passos_restantes(etapas[j - 1]) < 4);
        let k = j - 1;
        assert(etapas[k + 1] == etapas[j]);
        if etapas[j - 1] is Fim {
            assert(etapas[j] == etapas[j - 1]);
        } else {
            assert(passos_restantes(etapas[j]) < passos_restantes(etapas[j - 1]));
        }
    } else {
        assert(passos_restantes(etapas[i + 1]) < passos_restantes(etapas[i]));
    }
}

proof fn lemma_passos_caem(etapas: Seq<EtapaAdicao>, eventos: Seq<EventoAdicao>, i: int, j: int)
    requires
        etapas.len() == eventos.len() + 1,
        forall|k: int|
            0 <= k < eventos.len() ==> !(etapas[k] is Fim) ==> passos_restantes(#[trigger] etapas[k + 1])
                < passos_restantes(etapas[k]),
        forall|k: int| 0 <= k < eventos.len() ==> etapas[k] is Fim ==> #[trigger] etapas[k + 1] == etapas[k],
        0 <= i < j < etapas.len(),
    ensures
        passos_restantes(etapas[j]) < passos_restantes(etapas[i]) || etapas[i] is Fim,
    decreases j - i,
{
    assert(etapas[i] is Fim || passos_restantes(etapas[i + 1]) < passos_restantes(etapas[i]));
    if j > i + 1 {
        lemma_passos_caem(etapas, eventos, i + 1, j);
        if etapas[i + 1] is Fim {
            assert(etapas[i] is Fim || passos_restantes(etapas[i + 1]) == 0);
            lemma_fim_fica(etapas, eventos, i + 1, j);
        }
    }
}

proof fn lemma_fim_fica(etapas: Seq<EtapaAdicao>, eventos: Seq<EventoAdicao>, i: int, j: int)
    requires
        etapas.len() == eventos.len() + 1,
        forall|k: int| 0 <= k < eventos.len() ==> etapas[k] is Fim ==> #[trigger] etapas[k + 1] == etapas[k],
        0 <= i <= j < etapas.len(),
        etapas[i] is Fim,
    ensures
        etapas[j] == etapas[i],
    decreases j - i,
{
    if j > i {
        lemma_fim_fica(etapas, eventos, i, j - 1);
        let k = j - 1;
        assert(etapas[k + 1] == etapas[j]);
    }
}

} // verus!
