use vstd::prelude::*;
use crate::types::{Address, TokenInfo};
use crate::factory::{batch_run, TokenFactory};

verus! {

/// How many burns of a batch `batch_run` applies before it stops.
pub open spec fn batch_applied(t: TokenInfo, burns: Seq<(Address, i128)>) -> nat
    decreases burns.len(),
{
    if burns.len() == 0 {
        0
    } else if t.can_burn(burns[0].1) {
        1 + batch_applied(t.after_burn(burns[0].1), burns.drop_first())
    } else {
        0
    }
}

/// The sum of the amounts of the first `n` burns of a batch.
pub open spec fn amount_sum(burns: Seq<(Address, i128)>, n: nat) -> int
    decreases n,
{
    if n == 0 || burns.len() == 0 {
        0
    } else {
        burns[0].1 + amount_sum(burns.drop_first(), (n - 1) as nat)
    }
}

/// Later states compose: if `a` may become `b` and `b` may become `c`, then `a`
/// may become `c`. So what `evolves_to` keeps (identity, issued supply) and what
/// it never lowers (burned total, burn count) holds over a token's whole life.
pub proof fn evolves_transitive(a: TokenFactory, b: TokenFactory, c: TokenFactory)
    requires
        a.evolves_to(b),
        b.evolves_to(c),
    ensures
        a.evolves_to(c),
{
    assert forall|i: int| 0 <= i < a.tokens().len() implies (#[trigger] a.tokens()[i]).evolves_to(
        c.tokens()[i],
    ) by {
        assert(b.tokens()[i].evolves_to(c.tokens()[i]));
    }
}

/// Supply is conserved: a token created with `initial_supply` (nothing burned yet)
/// has, in every later well-formed state, `total_supply + total_burned == initial_supply`
/// and `total_supply >= 0`.
pub proof fn supply_conserved(created: TokenFactory, later: TokenFactory, i: int, initial_supply: i128)
    requires
        0 <= i < created.tokens().len(),
        created.tokens()[i].total_supply == initial_supply,
        created.tokens()[i].total_burned == 0,
        created.evolves_to(later),
        later.wf(),
    ensures
        later.tokens()[i].total_supply + later.tokens()[i].total_burned == initial_supply,
        later.tokens()[i].total_supply >= 0,
        later.tokens()[i].total_burned >= 0,
{
    assert(created.tokens()[i].evolves_to(later.tokens()[i]));
    assert(later.tokens()[i].valid());
}

/// A batch raises the burn count by exactly the number of burns it applied and the
/// burned total by their amounts, keeps the issued supply, applies all of them when it
/// succeeds, and stops only at a burn that cannot be made.
pub proof fn batch_burn_counts(t: TokenInfo, burns: Seq<(Address, i128)>)
    requires
        t.valid(),
    ensures
        ({
            let run = batch_run(t, burns);
            let n = batch_applied(t, burns);
            &&& n <= burns.len()
            &&& run.0.burn_count == t.burn_count + n
            &&& run.0.total_burned == t.total_burned + amount_sum(burns, n)
            &&& run.0.total_supply == t.total_supply - amount_sum(burns, n)
            &&& run.0.valid()
            &&& t.evolves_to(run.0)
            &&& run.1 <==> n == burns.len()
            &&& !run.1 ==> !run.0.can_burn(burns[n as int].1)
        }),
    decreases burns.len(),
{
    if burns.len() > 0 && t.can_burn(burns[0].1) {
        let rest = burns.drop_first();
        let u = t.after_burn(burns[0].1);
        batch_burn_counts(u, rest);
        let n = batch_applied(u, rest);
        if n < rest.len() {
            assert(rest[n as int] == burns[(n + 1) as int]);
        }
    }
}

} // verus!
