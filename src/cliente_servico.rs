//! The client directory.

use vstd::prelude::*;
use crate::modelos::Cliente;
use crate::loja::Loja;
use crate::pedido_repositorio::{busca_cliente, copia_cliente};

verus! {

/// `depois` is `antes` with only its client list replaced by `cs`.
pub open spec fn com_clientes(antes: Loja, depois: Loja, cs: Seq<Cliente>) -> bool {
    &&& depois.clientes@ == cs
    &&& depois.produtos@ == antes.produtos@
    &&& depois.pedidos@ == antes.pedidos@
    &&& depois.itens@ == antes.itens@
}

/// Every client, in the order of the directory.
pub fn listar(loja: &Loja) -> (r: Vec<Cliente>)
    ensures
        r@ == loja.clientes@,
{
    let mut r: Vec<Cliente> = Vec::new();
    let mut i: usize = 0;
    while i < loja.clientes.len()
        invariant
            i <= loja.clientes@.len(),
            r@ == loja.clientes@.subrange(0, i as int),
        decreases loja.clientes@.len() - i,
    {
        r.push(copia_cliente(&loja.clientes[i]));
        i = i + 1;
        assert(r@ =~= loja.clientes@.subrange(0, i as int));
    }
    assert(loja.clientes@.subrange(0, i as int) =~= loja.clientes@);
    r
}

/// Registers a client under the next free id; `false` where no id is left,
/// and then nothing changes.
pub fn criar(loja: &mut Loja, nome: String, telefone: String) -> (r: bool)
    requires
        old(loja).wf(),
    ensures
        final(loja).wf(),
        r <==> old(loja).proximo_cliente < u32::MAX,
        r ==> com_clientes(
            *old(loja),
            *final(loja),
            old(loja).clientes@.push(Cliente { id: old(loja).proximo_cliente, nome, telefone }),
        ) && final(loja).proximo_cliente == old(loja).proximo_cliente + 1,
        !r ==> *final(loja) == *old(loja),
{
    if loja.proximo_cliente == u32::MAX {
        return false;
    }
    let id = loja.proximo_cliente;
    loja.clientes.push(Cliente { id, nome, telefone });
    loja.proximo_cliente = id + 1;
    true
}

/// Gives the client with id `id` the new name and phone; a missing client
/// changes nothing. Always reports success.
pub fn alterar(loja: &mut Loja, id: u32, nome: String, telefone: String) -> (r: bool)
    requires
        old(loja).wf(),
    ensures
        final(loja).wf(),
        r,
        final(loja).proximo_cliente == old(loja).proximo_cliente,
        final(loja).clientes@.len() == old(loja).clientes@.len(),
        forall|k: int|
            0 <= k < old(loja).clientes@.len() ==> #[trigger] final(loja).clientes@[k] == if old(
                loja,
            ).clientes@[k].id == id {
                Cliente { id, nome, telefone }
            } else {
                old(loja).clientes@[k]
            },
        com_clientes(*old(loja), *final(loja), final(loja).clientes@),
{
    match busca_cliente(&loja.clientes, id) {
        Some(i) => {
            loja.clientes.set(i, Cliente { id, nome, telefone });
        },
        None => {},
    }
    true
}

/// Removes the client with id `id`, where there is one. Always reports
/// success.
pub fn excluir_por_id(loja: &mut Loja, id: u32) -> (r: bool)
    requires
        old(loja).wf(),
    ensures
        final(loja).wf(),
        r,
        final(loja).proximo_cliente == old(loja).proximo_cliente,
        !old(loja).tem_cliente(id) ==> *final(loja) == *old(loja),
        old(loja).tem_cliente(id) ==> exists|i: int|
            0 <= i < old(loja).clientes@.len() && #[trigger] old(loja).clientes@[i].id == id
                && com_clientes(*old(loja), *final(loja), old(loja).clientes@.remove(i)),
        forall|k: int| 0 <= k < final(loja).clientes@.len() ==> #[trigger] final(loja).clientes@[k].id != id,
{
    match busca_cliente(&loja.clientes, id) {
        Some(i) => {
            let ghost antes = *loja;
            loja.clientes.remove(i);
            proof {
                assert forall|k: int| 0 <= k < loja.clientes@.len() implies #[trigger] loja.clientes@[k].id != id by {
                    let k0 = if k < i { k } else { k + 1 };
                    assert(loja.clientes@[k] == antes.clientes@[k0]);
                }
                assert forall|a: int, b: int|
                    0 <= a < loja.clientes@.len() && 0 <= b < loja.clientes@.len() && a != b
                        implies #[trigger] loja.clientes@[a].id != #[trigger] loja.clientes@[b].id by {
                    let a0 = if a < i { a } else { a + 1 };
                    let b0 = if b < i { b } else { b + 1 };
                    assert(loja.clientes@[a] == antes.clientes@[a0]);
                    assert(loja.clientes@[b] == antes.clientes@[b0]);
                }
                assert forall|k: int| 0 <= k < loja.clientes@.len() implies #[trigger] loja.clientes@[k].id
                    < loja.proximo_cliente by {
                    let k0 = if k < i { k } else { k + 1 };
                    assert(loja.clientes@[k] == antes.clientes@[k0]);
                }
            }
        },
        None => {},
    }
    true
}

/// The stand-in record for a client id that has no record: that id, the name
/// "Cliente não encontrado" and an empty phone.
pub fn cliente_nao_encontrado(id: u32) -> (r: Cliente)
    ensures
        r.id == id,
        r.nome@ == "Cliente não encontrado"@,
        r.telefone@.len() == 0,
{
    Cliente { id, nome: "Cliente não encontrado".to_owned(), telefone: String::new() }
}

/// The client with id `id`; where there is none, the stand-in record of
/// `cliente_nao_encontrado`.
pub fn buscar_por_id(loja: &Loja, id: u32) -> (r: Cliente)
    ensures
        r.id == id,
        loja.tem_cliente(id) ==> exists|i: int| 0 <= i < loja.clientes@.len() && #[trigger] loja.clientes@[i] == r,
        !loja.tem_cliente(id) ==> r.nome@ == "Cliente não encontrado"@ && r.telefone@.len() == 0,
{
    match busca_cliente(&loja.clientes, id) {
        Some(i) => copia_cliente(&loja.clientes[i]),
        None => cliente_nao_encontrado(id),
    }
}

} // verus!
