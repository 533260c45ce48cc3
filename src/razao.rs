//! The line-item ledger's decisions and the order total, on plain values.

use vstd::prelude::*;

verus! {

/// The change a ledger step makes to the row of an (order, product) pair.
#[derive(Clone, Copy, Debug, PartialEq, Eq, Structural)]
pub enum Ajuste {
    /// Insert the row with quantity 1.
    Inserir,
    /// Set the row's quantity to the value.
    Atualizar(u32),
    /// Delete the row.
    Excluir,
    /// Leave the ledger as it is.
    Nada,
}

/// Adding one unit: the pair's row, if any, goes up by one, else a row of
/// quantity 1 is inserted. `None` where the quantity would leave `u32`.
pub fn ajuste_incremento(atual: Option<u32>) -> (r: Option<Ajuste>)
    ensures
        atual is None ==> r == Some(Ajuste::Inserir),
        atual is Some ==> (atual->0 < u32::MAX <==> r is Some),
        atual is Some && atual->0 < u32::MAX ==> r == Some(Ajuste::Atualizar((atual->0 + 1) as u32)),
{
    match atual {
        None => Some(Ajuste::Inserir),
        Some(q) => {
            if q < u32::MAX {
                Some(Ajuste::Atualizar(q + 1))
            } else {
                None
            }
        },
    }
}

/// Removing one unit: a row of quantity above 1 goes down by one, a row of
/// quantity 1 (or less) is deleted, an absent row stays absent.
pub fn ajuste_decremento(atual: Option<u32>) -> (r: Ajuste)
    ensures
        atual is None ==> r == Ajuste::Nada,
        atual is Some && atual->0 > 1 ==> r == Ajuste::Atualizar((atual->0 - 1) as u32),
        atual is Some && atual->0 <= 1 ==> r == Ajuste::Excluir,
{
    match atual {
        None => Ajuste::Nada,
        Some(q) => {
            if q > 1 {
                Ajuste::Atualizar(q - 1)
            } else {
                Ajuste::Excluir
            }
        },
    }
}

/// One row of the total's join: a product's unit price (cents) and the
/// quantity the order holds of it.
#[derive(Clone, Copy, Debug, PartialEq, Eq, Structural)]
pub struct LinhaValor {
    pub preco: u64,
    pub quantidade: u32,
}

/// The sum of price times quantity over the rows; 0 for no rows.
pub open spec fn soma_linhas(ls: Seq<LinhaValor>) -> int
    decreases ls.len(),
{
    if ls.len() == 0 {
        0
    } else {
        soma_linhas(ls.drop_last()) + ls.last().preco * ls.last().quantidade
    }
}

proof fn lemma_soma_prefixos(ls: Seq<LinhaValor>, i: int, j: int)
    requires
        0 <= i <= j <= ls.len(),
    ensures
        soma_linhas(ls.subrange(0, i)) <= soma_linhas(ls.subrange(0, j)),
    decreases j - i,
{
    if i < j {
        lemma_soma_prefixos(ls, i, j - 1);
        let s = ls.subrange(0, j);
        assert(s.drop_last() =~= ls.subrange(0, j - 1));
        let l = s.last();
        assert(l.preco * l.quantidade >= 0) by (nonlinear_arith)
            requires
                l.preco >= 0,
                l.quantidade >= 0,
        ;
    }
}

/// The order total of the rows, coalesced to 0 when there are none.
/// `None` exactly when the sum does not fit in `u64`.
pub fn valor_total(linhas: &Vec<LinhaValor>) -> (r: Option<u64>)
    ensures
        r is Some <==> soma_linhas(linhas@) <= u64::MAX,
        r matches Some(t) ==> t == soma_linhas(linhas@),
        linhas@.len() == 0 ==> r == Some(0u64),
{
    let mut total: u64 = 0;
    let mut i: usize = 0;
    while i < linhas.len()
        invariant
            i <= linhas@.len(),
            total == soma_linhas(linhas@.subrange(0, i as int)),
        decreases linhas@.len() - i,
    {
        let l = linhas[i];
        proof {
            assert(linhas@.subrange(0, i + 1).drop_last() =~= linhas@.subrange(0, i as int));
            lemma_soma_prefixos(linhas@, i + 1, linhas@.len() as int);
            assert(linhas@.subrange(0, linhas@.len() as int) =~= linhas@);
        }
        let parcela = match l.preco.checked_mul(l.quantidade as u64) {
            Some(p) => p,
            None => {
                proof {
                    assert(soma_linhas(linhas@.subrange(0, i as int)) >= 0) by {
                        lemma_soma_prefixos(linhas@, 0, i as int);
                        assert(linhas@.subrange(0, 0).len() == 0);
                    }
                }
                return None;
            },
        };
        total = match total.checked_add(parcela) {
            Some(t) => t,
            None => {
                return None;
            },
        };
        i = i + 1;
    }
    assert(linhas@.subrange(0, i as int) =~= linhas@);
    Some(total)
}

} // verus!
