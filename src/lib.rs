//! Storefront core: clients, products, orders and their line items, with the
//! order totals kept equal to the sum of price times quantity of the items.
//!
//! Prices and totals are held as integer amounts of the smallest currency unit
//! (cents), and timestamps as seconds.

pub mod modelos;
pub mod razao;
pub mod loja;
pub mod pedido_produto_repositorio;
pub mod pedido_repositorio;
pub mod produto_repositorio;
pub mod pedido_servico;
pub mod cliente_servico;
pub mod pedido_view;
pub mod leis;
