//! Context-window usage as a whole percentage.

use vstd::prelude::*;

verus! {

/// The percentage of a context window that `used_tokens` occupy, as the
/// integer computation defines it: the product `used * 100` is
/// saturated at `usize::MAX`, divided by the window, and capped at 100.
pub open spec fn spec_percent(used_tokens: nat, context_window: nat) -> nat {
    if context_window == 0 {
        0
    } else {
        let scaled = if used_tokens * 100 > usize::MAX { usize::MAX as nat } else { used_tokens * 100 };
        let quotient = scaled / context_window;
        if quotient > 100 { 100 } else { quotient }
    }
}

/// Percentage of the context window in use, without exposing token counts.
pub fn percent(used_tokens: usize, context_window: usize) -> (result: usize)
    ensures
        result == spec_percent(used_tokens as nat, context_window as nat),
        result <= 100,
{
    if context_window == 0 {
        return 0;
    }
    let scaled = match used_tokens.checked_mul(100) {
        Some(product) => product,
        None => usize::MAX,
    };
    let quotient = scaled / context_window;
    if quotient > 100 {
        100
    } else {
        quotient
    }
}

/// Within the window, the percentage is the whole part of the share of the
/// window in use: `result * window <= used * 100 < (result + 1) * window`,
/// so it is never rounded up and never capped below the true share.
pub proof fn law_percent_is_the_whole_part_of_the_share(used_tokens: nat, context_window: nat)
    requires
        context_window > 0,
        used_tokens <= context_window,
        used_tokens * 100 <= usize::MAX,
    ensures
        spec_percent(used_tokens, context_window) * context_window <= used_tokens * 100,
        used_tokens * 100 < (spec_percent(used_tokens, context_window) + 1) * context_window,
{
    let scaled = used_tokens * 100;
    let q = scaled / context_window;
    assert(scaled == context_window * q + scaled % context_window && 0 <= scaled % context_window < context_window) by (nonlinear_arith)
        requires
            context_window > 0,
            q == scaled / context_window,
    ;
    assert(q <= 100) by (nonlinear_arith)
        requires
            context_window > 0,
            scaled == context_window * q + scaled % context_window,
            0 <= scaled % context_window,
            scaled == used_tokens * 100,
            used_tokens <= context_window,
    ;
    assert(spec_percent(used_tokens, context_window) == q);
    assert(q * context_window <= scaled && scaled < (q + 1) * context_window) by (nonlinear_arith)
        requires
            scaled == context_window * q + scaled % context_window,
            0 <= scaled % context_window < context_window,
    ;
}

/// A window used in full, or beyond, reads as 100 percent when the product
/// fits, and no result is ever above 100; an empty window reads as 0.
pub proof fn law_percent_caps_at_a_full_window(used_tokens: nat, context_window: nat)
    ensures
        spec_percent(used_tokens, context_window) <= 100,
        context_window == 0 ==> spec_percent(used_tokens, context_window) == 0,
        context_window > 0 && used_tokens >= context_window && used_tokens * 100 <= usize::MAX
            ==> spec_percent(used_tokens, context_window) == 100,
{
    if context_window > 0 && used_tokens >= context_window && used_tokens * 100 <= usize::MAX {
        let scaled = used_tokens * 100;
        assert(scaled / context_window >= 100) by (nonlinear_arith)
            requires
                context_window > 0,
                used_tokens >= context_window,
                scaled == used_tokens * 100,
        ;
    }
}

} // verus!
