//! The session state: named variables and the history of past results.

use vstd::prelude::*;

verus! {

/// Bit pattern of the binary64 value 0.0.
pub const ZERO_BITS: u64 = 0x0000_0000_0000_0000;

/// Bit pattern of the binary64 value 1.0, the encoding of `true`.
pub const ONE_BITS: u64 = 0x3FF0_0000_0000_0000;

/// Bit pattern of the binary64 value closest to the circle constant pi.
pub const PI_BITS: u64 = 0x4009_21FB_5444_2D18;

/// Bit pattern of the binary64 value closest to two pi, exactly the double
/// of [`PI_BITS`]'s value.
pub const TAU_BITS: u64 = 0x4019_21FB_5444_2D18;

/// Bit pattern of the binary64 value closest to Euler's number.
pub const E_BITS: u64 = 0x4005_BF0A_8B14_5769;

/// The mathematical model of a session: the past results in order (the
/// first ever computed result first), and the variables in the order they
/// were declared, each a case-folded name with the bit pattern of its
/// current value.
#[verifier::ext_equal]
pub struct SessionModel {
    pub results: Seq<u64>,
    pub vars: Seq<(Seq<char>, u64)>,
}

/// A calculator session.
///
/// `results` is append-only: one entry per successful top-level evaluation.
/// `variables` is append-only as well: a variable is declared the first
/// time the lexer sees its name, and its position — its slot index — never
/// changes afterwards.
pub struct Calculator {
    results: Vec<u64>,
    variables: Vec<(Vec<char>, u64)>,
}

/// The model of a variable table.
pub open spec fn vars_model(v: Seq<(Vec<char>, u64)>) -> Seq<(Seq<char>, u64)> {
    v.map_values(|p: (Vec<char>, u64)| (p.0@, p.1))
}

/// The slot of the first variable named `low`, scanning from `j` on.
pub open spec fn find_var_from(vars: Seq<(Seq<char>, u64)>, low: Seq<char>, j: int) -> Option<int>
    decreases vars.len() - j,
{
    if j < 0 || j >= vars.len() {
        None
    } else if vars[j].0 == low {
        Some(j)
    } else {
        find_var_from(vars, low, j + 1)
    }
}

/// The slot of the variable named `low`, if it exists.
pub open spec fn find_var(vars: Seq<(Seq<char>, u64)>, low: Seq<char>) -> Option<int> {
    find_var_from(vars, low, 0)
}

/// The variable table `cur` extends `pre`: entries are only ever appended,
/// so a slot index, once handed out, keeps naming the same variable.
pub open spec fn vars_prefix(pre: Seq<(Seq<char>, u64)>, cur: Seq<(Seq<char>, u64)>) -> bool {
    pre.len() <= cur.len() && forall|k: int| 0 <= k < pre.len() ==> #[trigger] cur[k] == pre[k]
}

/// Whether two character vectors hold the same characters.
pub(crate) fn chars_eq(a: &Vec<char>, b: &Vec<char>) -> (r: bool)
    ensures
        r == (a@ == b@),
{
    if a.len() != b.len() {
        return false;
    }
    let n = a.len();
    let mut i: usize = 0;
    while i < n
        invariant
            i <= n,
            n == a@.len(),
            n == b@.len(),
            forall|k: int| 0 <= k < i ==> a@[k] == b@[k],
        decreases n - i,
    {
        if a[i] != b[i] {
            return false;
        }
        i = i + 1;
    }
    proof {
        assert(a@ =~= b@);
    }
    true
}

impl View for Calculator {
    type V = SessionModel;

    closed spec fn view(&self) -> SessionModel {
        SessionModel { results: self.results@, vars: vars_model(self.variables@) }
    }
}

impl Calculator {
    /// A fresh session: no past results, no variables.
    pub fn new() -> (c: Calculator)
        ensures
            c@.results == Seq::<u64>::empty(),
            c@.vars == Seq::<(Seq<char>, u64)>::empty(),
    {
        let c = Calculator { results: Vec::new(), variables: Vec::new() };
        proof {
            assert(c@.vars =~= Seq::<(Seq<char>, u64)>::empty());
        }
        c
    }

    /// How many results the session holds.
    pub fn result_count(&self) -> (n: usize)
        ensures
            n == self@.results.len(),
    {
        self.results.len()
    }

    /// How many variables have been declared.
    pub fn variable_count(&self) -> (n: usize)
        ensures
            n == self@.vars.len(),
    {
        self.variables.len()
    }

    /// The bit pattern of the result at `index` (zero-based).
    pub fn result_at(&self, index: usize) -> (r: u64)
        requires
            index < self@.results.len(),
        ensures
            r == self@.results[index as int],
    {
        self.results[index]
    }

    pub(crate) fn results_ref(&self) -> (r: &Vec<u64>)
        ensures
            r@ == self@.results,
    {
        &self.results
    }

    pub(crate) fn variables_ref(&self) -> (r: &Vec<(Vec<char>, u64)>)
        ensures
            vars_model(r@) == self@.vars,
    {
        &self.variables
    }

    /// The slot of the variable named `low`, if one exists.
    pub(crate) fn find_variable(&self, low: &Vec<char>) -> (r: Option<usize>)
        ensures
            (match r {
                Some(u) => u < self@.vars.len() && find_var(self@.vars, low@) == Some(u as int),
                None => find_var(self@.vars, low@) is None,
            }),
    {
        let n = self.variables.len();
        let mut j: usize = 0;
        while j < n
            invariant
                j <= n,
                n == self@.vars.len(),
                n == self.variables@.len(),
                find_var(self@.vars, low@) == find_var_from(self@.vars, low@, j as int),
            decreases n - j,
        {
            proof {
                assert(self@.vars[j as int].0 == self.variables@[j as int].0@);
            }
            if chars_eq(&self.variables[j].0, low) {
                return Some(j);
            }
            j = j + 1;
        }
        None
    }

    /// The bit pattern of the variable in slot `j`.
    pub(crate) fn variable_bits(&self, j: usize) -> (r: u64)
        requires
            j < self@.vars.len(),
        ensures
            r == self@.vars[j as int].1,
    {
        proof {
            assert(self@.vars[j as int].1 == self.variables@[j as int].1);
        }
        self.variables[j].1
    }

    pub(crate) fn push_result(&mut self, bits: u64)
        ensures
            final(self)@.results == old(self)@.results.push(bits),
            final(self)@.vars == old(self)@.vars,
    {
        self.results.push(bits);
    }

    pub(crate) fn push_variable(&mut self, name: Vec<char>, bits: u64)
        ensures
            final(self)@.results == old(self)@.results,
            final(self)@.vars == old(self)@.vars.push((name@, bits)),
    {
        let ghost old_vars = self@.vars;
        self.variables.push((name, bits));
        proof {
            assert(self@.vars =~= old_vars.push((name@, bits)));
        }
    }

    pub(crate) fn set_variable(&mut self, slot: usize, bits: u64)
        requires
            slot < old(self)@.vars.len(),
        ensures
            final(self)@.results == old(self)@.results,
            final(self)@.vars == old(self)@.vars.update(slot as int, (old(self)@.vars[slot as int].0, bits)),
    {
        let ghost old_vars = self@.vars;
        let name_keep = self.variables[slot].0.clone();
        self.variables.set(slot, (name_keep, bits));
        proof {
            assert(self@.vars =~= old_vars.update(slot as int, (old_vars[slot as int].0, bits)));
        }
    }
}

} // verus!
