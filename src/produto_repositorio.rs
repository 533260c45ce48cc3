//! The product catalog.

use vstd::prelude::*;
use crate::modelos::{ErroLoja, Produto};
use crate::loja::Loja;

verus! {

/// A copy of the product record.
pub fn copia_produto(p: &Produto) -> (r: Produto)
    ensures
        r == *p,
{
    Produto {
        id: p.id,
        nome: p.nome.clone(),
        descricao: p.descricao.clone(),
        imagem: p.imagem.clone(),
        preco: p.preco,
    }
}

/// Every product of the catalog, in order of id.
pub fn listar(loja: &Loja) -> (r: Vec<Produto>)
    ensures
        r@ == loja.produtos@,
{
    let mut r: Vec<Produto> = Vec::new();
    let mut i: usize = 0;
    while i < loja.produtos.len()
        invariant
            i <= loja.produtos@.len(),
            r@ == loja.produtos@.subrange(0, i as int),
        decreases loja.produtos@.len() - i,
    {
        r.push(copia_produto(&loja.produtos[i]));
        i = i + 1;
        assert(r@ =~= loja.produtos@.subrange(0, i as int));
    }
    assert(loja.produtos@.subrange(0, i as int) =~= loja.produtos@);
    r
}

/// The product with id `id`; `NaoEncontrado` where there is none.
pub fn buscar_por_id(loja: &Loja, id: u32) -> (r: Result<Produto, ErroLoja>)
    ensures
        r is Ok <==> loja.tem_produto(id),
        r matches Ok(p) ==> p == loja.produtos@[id - 1],
        r is Err ==> r == Err::<Produto, ErroLoja>(ErroLoja::NaoEncontrado),
{
    if id >= 1 && (id as usize) <= loja.produtos.len() {
        Ok(copia_produto(&loja.produtos[(id - 1) as usize]))
    } else {
        Err(ErroLoja::NaoEncontrado)
    }
}

/// Adds a product to the catalog under the next id, which it returns;
/// `Persistencia` where no id is left, and then nothing changes.
pub fn cadastrar(loja: &mut Loja, nome: String, descricao: String, imagem: String, preco: u64) -> (r: Result<
    u32,
    ErroLoja,
>)
    requires
        old(loja).wf(),
    ensures
        final(loja).wf(),
        r is Err <==> old(loja).produtos@.len() + 1 >= u32::MAX,
        r is Err ==> r == Err::<u32, ErroLoja>(ErroLoja::Persistencia) && *final(loja) == *old(loja),
        r matches Ok(id) ==> id == old(loja).produtos@.len() + 1 && final(loja).produtos@ == old(loja).produtos@.push(Produto { id, nome, descricao, imagem, preco }) && final(loja).pedidos@ == old(loja).pedidos@ && final(loja).itens@ == old(loja).itens@ && final(loja).clientes@ == old(loja).clientes@
            && final(loja).proximo_cliente == old(loja).proximo_cliente,
{
    if loja.produtos.len() >= (u32::MAX - 1) as usize {
        return Err(ErroLoja::Persistencia);
    }
    let ghost antes = *loja;
    let id = (loja.produtos.len() + 1) as u32;
    loja.produtos.push(Produto { id, nome, descricao, imagem, preco });
    proof {
        assert forall|k: u32| #[trigger] crate::loja::total_pedido(loja.itens@, loja.produtos@, k)
            == crate::loja::total_pedido(antes.itens@, antes.produtos@, k) by {
            lemma_mesmo_total(antes.itens@, antes.produtos@, loja.produtos@, k);
        }
        assert forall|i: int| 0 <= i < loja.pedidos@.len() implies (#[trigger] loja.pedidos@[i]).valor_total
            == crate::loja::total_pedido(loja.itens@, loja.produtos@, (i + 1) as u32) by {
            assert(crate::loja::total_pedido(loja.itens@, loja.produtos@, (i + 1) as u32)
                == crate::loja::total_pedido(antes.itens@, antes.produtos@, (i + 1) as u32));
        }
    }
    Ok(id)
}

/// A longer catalog gives the same totals to rows of the products it had.
proof fn lemma_mesmo_total(its: Seq<crate::modelos::PedidoProduto>, ps: Seq<Produto>, qs: Seq<Produto>, k: u32)
    requires
        ps.len() <= qs.len(),
        forall|i: int| 0 <= i < ps.len() ==> #[trigger] qs[i] == ps[i],
        forall|i: int| 0 <= i < its.len() ==> 1 <= (#[trigger] its[i]).produto_id <= ps.len(),
    ensures
        crate::loja::total_pedido(its, qs, k) == crate::loja::total_pedido(its, ps, k),
    decreases its.len(),
{
    if its.len() > 0 {
        lemma_mesmo_total(its.drop_last(), ps, qs, k);
        let it = its.last();
        assert(its[its.len() - 1] == it);
    }
}

} // verus!
