//! A door-toggling simulation: all doors start open, and each pass walks the
//! row with a growing stride, toggling every door it lands on. The result is
//! how many doors are left open.

use vstd::prelude::*;

verus! {

/// How often door `d` (counting from 0) is toggled during the first
/// `passes` passes: pass number `k` (from 1) toggles the doors whose index
/// is a multiple of `k + 1`.
pub open spec fn toggle_count(d: nat, passes: nat) -> nat
    decreases passes,
{
    if passes == 0 {
        0
    } else {
        toggle_count(d, (passes - 1) as nat) + if d % (passes + 1) == 0 {
            1nat
        } else {
            0nat
        }
    }
}

/// Whether door `d` is open after all passes: it started open and each
/// toggle flips it.
pub open spec fn door_open(d: nat, passes: nat) -> bool {
    toggle_count(d, passes) % 2 == 0
}

/// How many of the first `doors` doors are open after all passes.
pub open spec fn count_open(doors: nat, passes: nat) -> nat
    decreases doors,
{
    if doors == 0 {
        0
    } else {
        count_open((doors - 1) as nat, passes) + if door_open((doors - 1) as nat, passes) {
            1nat
        } else {
            0nat
        }
    }
}

/// No more doors are open than exist.
proof fn lemma_count_open_bound(doors: nat, passes: nat)
    ensures
        count_open(doors, passes) <= doors,
    decreases doors,
{
    if doors > 0 {
        lemma_count_open_bound((doors - 1) as nat, passes);
    }
}

/// Simulates `passes` toggling passes over a row of `doors` doors, all
/// initially open, where pass `k` toggles every door whose 0-based index is
/// a multiple of `k + 1`, and returns how many doors end up open.
pub fn pass_doors(doors: usize, passes: usize) -> (n: usize)
    requires
        passes + 2 <= usize::MAX,
    ensures
        n == count_open(doors as nat, passes as nat),
{
    let mut row: Vec<bool> = Vec::new();
    let mut setup: usize = 0;
    while setup < doors
        invariant
            setup <= doors,
            row@.len() == setup,
            forall|d: int| 0 <= d < setup ==> row@[d] == door_open(d as nat, 0),
        decreases doors - setup,
    {
        row.push(true);
        setup = setup + 1;
    }
    let mut pass: usize = 2;
    while pass < passes + 2
        invariant
            passes + 2 <= usize::MAX,
            2 <= pass <= passes + 2,
            row@.len() == doors,
            forall|d: int| 0 <= d < doors ==> row@[d] == door_open(d as nat, (pass - 2) as nat),
        decreases passes + 2 - pass,
    {
        let mut d: usize = 0;
        while d < doors
            invariant
                2 <= pass <= passes + 1,
                d <= doors,
                row@.len() == doors,
                forall|j: int| 0 <= j < d ==> row@[j] == door_open(j as nat, (pass - 1) as nat),
                forall|j: int| d <= j < doors ==> row@[j] == door_open(j as nat, (pass - 2) as nat),
            decreases doors - d,
        {
            proof {
                assert(toggle_count(d as nat, (pass - 1) as nat) == toggle_count(
                    d as nat,
                    (pass - 2) as nat,
                ) + if d as nat % (pass as nat) == 0 {
                    1nat
                } else {
                    0nat
                });
            }
            if d % pass == 0 {
                let open = row[d];
                row[d] = !open;
            }
            d = d + 1;
        }
        pass = pass + 1;
    }
    let mut n: usize = 0;
    let mut i: usize = 0;
    while i < doors
        invariant
            i <= doors,
            row@.len() == doors,
            forall|d: int| 0 <= d < doors ==> row@[d] == door_open(d as nat, passes as nat),
            n == count_open(i as nat, passes as nat),
            n <= i,
        decreases doors - i,
    {
        proof {
            lemma_count_open_bound(i as nat, passes as nat);
        }
        if row[i] {
            n = n + 1;
        }
        i = i + 1;
    }
    n
}

} // verus!
