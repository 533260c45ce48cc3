use vstd::prelude::*;

verus! {

/// A registered client.
#[derive(Clone, Debug)]
pub struct Cliente {
    pub id: u32,
    pub nome: String,
    pub telefone: String,
}

/// A catalog product; `preco` is the unit price in cents.
#[derive(Clone, Debug)]
pub struct Produto {
    pub id: u32,
    pub nome: String,
    pub descricao: String,
    pub imagem: String,
    pub preco: u64,
}

/// An order; `valor_total` is in cents, `data` is the creation time in seconds.
#[derive(Clone, Copy, Debug, PartialEq, Eq, Structural)]
pub struct Pedido {
    pub id: u32,
    pub valor_total: u64,
    pub cliente_id: u32,
    pub data: i64,
    pub pago: bool,
}

/// One line item: how many units of a product an order holds.
#[derive(Clone, Copy, Debug, PartialEq, Eq, Structural)]
pub struct PedidoProduto {
    pub pedido_id: u32,
    pub produto_id: u32,
    pub quantidade: u32,
}

/// A product as shown inside an order view, with its quantity.
#[derive(Clone, Debug)]
pub struct ProdutoView {
    pub id: u32,
    pub nome: String,
    pub descricao: String,
    pub imagem: String,
    pub preco: u64,
    pub quantidade: u32,
}

/// An order joined with its client and its products.
#[derive(Clone, Debug)]
pub struct PedidoView {
    pub id: u32,
    pub valor_total: u64,
    pub cliente_id: u32,
    pub data: i64,
    pub pago: bool,
    pub cliente: Cliente,
    pub produtos: Vec<ProdutoView>,
}

/// Failures of the order store and of the line-item ledger.
#[derive(Clone, Copy, Debug, PartialEq, Eq, Structural)]
pub enum ErroLoja {
    /// The product, client or order does not exist.
    NaoEncontrado,
    /// The store cannot hold the result (an identifier, a quantity or a total
    /// would leave its range); nothing was changed.
    Persistencia,
    /// The change would give a client a second active order.
    Integridade,
}

/// What a product of an order view says, without its texts:
/// (product id, unit price, quantity).
pub open spec fn modelo_produto(p: ProdutoView) -> (u32, u64, u32) {
    (p.id, p.preco, p.quantidade)
}

/// The models of the products of a view, in order.
pub open spec fn modelo_produtos(ps: Seq<ProdutoView>) -> Seq<(u32, u64, u32)> {
    ps.map_values(|p: ProdutoView| modelo_produto(p))
}

impl Cliente {
    /// The client that stands for "no client": id 0 and empty texts.
    pub fn vazio() -> (r: Cliente)
        ensures
            r.id == 0,
            r.nome@.len() == 0,
            r.telefone@.len() == 0,
    {
        Cliente { id: 0, nome: String::new(), telefone: String::new() }
    }
}

impl PedidoView {
    /// The empty cart: no order, no client, no products, total 0.
    pub fn default() -> (r: PedidoView)
        ensures
            r.id == 0,
            r.valor_total == 0,
            r.cliente_id == 0,
            r.data == 0,
            !r.pago,
            r.cliente.id == 0,
            r.cliente.nome@.len() == 0,
            r.cliente.telefone@.len() == 0,
            r.produtos@.len() == 0,
    {
        PedidoView {
            id: 0,
            valor_total: 0,
            cliente_id: 0,
            data: 0,
            pago: false,
            cliente: Cliente::vazio(),
            produtos: Vec::new(),
        }
    }
}

} // verus!
