//! Checking the funds attached to a request against what the request costs.

use vstd::prelude::*;

verus! {

/// An amount of one asset.
#[derive(Clone, Debug, PartialEq, Eq)]
pub struct Coin {
    /// The asset's name.
    pub denom: String,
    /// How much of it.
    pub amount: u128,
}

/// Why attached funds were refused.
#[derive(Clone, Debug, PartialEq, Eq)]
pub enum CustomPaymentError {
    /// The funds are not exactly the expected ones.
    InsufficientFunds {
        /// What the request costs, amounts of zero left out.
        expected: Vec<Coin>,
        /// What was attached.
        actual: Vec<Coin>,
    },
}

/// Whether two coins name the same asset and amount.
pub open spec fn same_coin(a: Coin, b: Coin) -> bool {
    a.denom@ == b.denom@ && a.amount == b.amount
}

/// How often a coin occurs in a list.
pub open spec fn count(coins: Seq<Coin>, c: Coin) -> nat
    decreases coins.len(),
{
    if coins.len() == 0 {
        0
    } else {
        count(coins.drop_last(), c) + if same_coin(coins.last(), c) {
            1nat
        } else {
            0nat
        }
    }
}

/// Whether two lists hold the same coins, each as often, in any order.
pub open spec fn same_funds(a: Seq<Coin>, b: Seq<Coin>) -> bool {
    forall|c: Coin| count(a, c) == count(b, c)
}

/// The coins of a list whose amount is not zero, in their order.
pub open spec fn nonzero(coins: Seq<Coin>) -> Seq<Coin>
    decreases coins.len(),
{
    if coins.len() == 0 {
        Seq::empty()
    } else if coins.last().amount > 0 {
        nonzero(coins.drop_last()).push(coins.last())
    } else {
        nonzero(coins.drop_last())
    }
}

/// Whether every coin of `a` occurs as often in `b` as in `a`.
pub open spec fn covered(a: Seq<Coin>, b: Seq<Coin>) -> bool {
    forall|i: int| 0 <= i < a.len() ==> count(a, #[trigger] a[i]) == count(b, a[i])
}

/// The count of a coin depends on its asset and amount alone.
pub proof fn lemma_count_same(coins: Seq<Coin>, c: Coin, d: Coin)
    requires
        same_coin(c, d),
    ensures
        count(coins, c) == count(coins, d),
    decreases coins.len(),
{
    if coins.len() > 0 {
        lemma_count_same(coins.drop_last(), c, d);
    }
}

/// A coin that is counted occurs, and no count exceeds the length.
pub proof fn lemma_count_occurs(coins: Seq<Coin>, c: Coin)
    ensures
        count(coins, c) <= coins.len(),
        count(coins, c) > 0 ==> exists|i: int| 0 <= i < coins.len() && same_coin(#[trigger] coins[i], c),
    decreases coins.len(),
{
    if coins.len() > 0 {
        lemma_count_occurs(coins.drop_last(), c);
        if same_coin(coins.last(), c) {
            assert(same_coin(coins[coins.len() - 1], c));
        } else if count(coins, c) > 0 {
            let i = choose|i: int|
                0 <= i < coins.drop_last().len() && same_coin(#[trigger] coins.drop_last()[i], c);
            assert(same_coin(coins[i], c));
        }
    }
}

/// Two lists that cover each other hold the same funds.
pub proof fn lemma_covered_both_ways(a: Seq<Coin>, b: Seq<Coin>)
    ensures
        same_funds(a, b) <==> covered(a, b) && covered(b, a),
{
    if covered(a, b) && covered(b, a) {
        assert forall|c: Coin| count(a, c) == count(b, c) by {
            lemma_count_occurs(a, c);
            lemma_count_occurs(b, c);
            if count(a, c) > 0 {
                let i = choose|i: int| 0 <= i < a.len() && same_coin(#[trigger] a[i], c);
                lemma_count_same(a, a[i], c);
                lemma_count_same(b, a[i], c);
            } else if count(b, c) > 0 {
                let i = choose|i: int| 0 <= i < b.len() && same_coin(#[trigger] b[i], c);
                lemma_count_same(a, b[i], c);
                lemma_count_same(b, b[i], c);
            }
        }
    }
}

/// A copy of a coin.
pub fn copy_coin(c: &Coin) -> (r: Coin)
    ensures
        r == *c,
{
    Coin { denom: c.denom.clone(), amount: c.amount }
}

/// A copy of a list of coins.
pub fn copy_coins(coins: &Vec<Coin>) -> (r: Vec<Coin>)
    ensures
        r@ == coins@,
{
    let mut out: Vec<Coin> = Vec::new();
    let mut i: usize = 0;
    while i < coins.len()
        invariant
            i <= coins@.len(),
            out@ == coins@.take(i as int),
        decreases coins@.len() - i,
    {
        out.push(copy_coin(&coins[i]));
        proof {
            assert(out@ =~= coins@.take(i + 1));
        }
        i += 1;
    }
    proof {
        assert(coins@.take(coins@.len() as int) =~= coins@);
    }
    out
}

/// The coins of a list whose amount is not zero, in their order.
pub fn nonzero_coins(coins: &Vec<Coin>) -> (r: Vec<Coin>)
    ensures
        r@ == nonzero(coins@),
{
    let mut out: Vec<Coin> = Vec::new();
    let mut i: usize = 0;
    while i < coins.len()
        invariant
            i <= coins@.len(),
            out@ == nonzero(coins@.take(i as int)),
        decreases coins@.len() - i,
    {
        proof {
            assert(coins@.take(i + 1).drop_last() =~= coins@.take(i as int));
        }
        if coins[i].amount > 0 {
            out.push(copy_coin(&coins[i]));
        }
        i += 1;
    }
    proof {
        assert(coins@.take(coins@.len() as int) =~= coins@);
    }
    out
}

/// How often a coin occurs in a list.
pub fn count_coin(coins: &Vec<Coin>, c: &Coin) -> (n: usize)
    ensures
        n == count(coins@, *c),
{
    let mut n: usize = 0;
    let mut i: usize = 0;
    while i < coins.len()
        invariant
            i <= coins@.len(),
            n == count(coins@.take(i as int), *c),
            n <= i,
        decreases coins@.len() - i,
    {
        proof {
            assert(coins@.take(i + 1).drop_last() =~= coins@.take(i as int));
        }
        if coins[i].denom == c.denom && coins[i].amount == c.amount {
            n += 1;
        }
        i += 1;
    }
    proof {
        assert(coins@.take(coins@.len() as int) =~= coins@);
    }
    n
}

/// Whether every coin of `a` occurs as often in `b` as in `a`.
pub fn is_covered(a: &Vec<Coin>, b: &Vec<Coin>) -> (r: bool)
    ensures
        r == covered(a@, b@),
{
    let mut i: usize = 0;
    while i < a.len()
        invariant
            i <= a@.len(),
            forall|j: int| 0 <= j < i ==> count(a@, #[trigger] a@[j]) == count(b@, a@[j]),
        decreases a@.len() - i,
    {
        if count_coin(a, &a[i]) != count_coin(b, &a[i]) {
            return false;
        }
        i += 1;
    }
    true
}

/// Accepts the attached funds if they are exactly the expected coins of
/// non-zero amount, in any order.
pub fn check_payment(sent: &Vec<Coin>, expected: &Vec<Coin>) -> (r: Result<
    (),
    CustomPaymentError,
>)
    ensures
        match r {
            Ok(()) => same_funds(sent@, nonzero(expected@)),
            Err(CustomPaymentError::InsufficientFunds { expected: e, actual: a }) => !same_funds(
                sent@,
                nonzero(expected@),
            ) && e@ == nonzero(expected@) && a@ == sent@,
        },
{
    let wanted = nonzero_coins(expected);
    proof {
        lemma_covered_both_ways(sent@, wanted@);
    }
    if is_covered(sent, &wanted) && is_covered(&wanted, sent) {
        Ok(())
    } else {
        Err(CustomPaymentError::InsufficientFunds { expected: wanted, actual: copy_coins(sent) })
    }
}

/// What attached funds amount to in one asset: nothing where nothing is
/// attached, the amount where the one coin attached is of that asset, and
/// no answer for anything else.
pub open spec fn attached(funds: Seq<Coin>, denom: Seq<char>) -> Option<u128> {
    if funds.len() == 0 {
        Some(0)
    } else if funds.len() == 1 && funds[0].denom@ == denom {
        Some(funds[0].amount)
    } else {
        None
    }
}

/// The amount of `denom` that the attached funds stand for, or `None` where
/// more than one coin or a coin of another asset is attached.
pub fn attached_amount(funds: &Vec<Coin>, denom: &String) -> (r: Option<u128>)
    ensures
        r == attached(funds@, denom@),
{
    if funds.len() == 0 {
        Some(0)
    } else if funds.len() == 1 && funds[0].denom == *denom {
        Some(funds[0].amount)
    } else {
        None
    }
}

} // verus!
