//! Rules of a grammar: terminals, non-terminals and productions.

use vstd::prelude::*;
use vstd::string::StringExecFns;

verus! {

/// A non-terminal of a grammar.
#[derive(Debug, Clone, PartialEq)]
pub struct NonTerminal {
    pub name: String,
    pub description: String,
}

/// A terminal of a grammar.
#[derive(Debug, Clone, PartialEq)]
pub struct Terminal {
    pub token_type: String,
    pub representation: String,
}

/// A production: the non-terminal on its left side, the symbols on its
/// right side, and what to do when it is applied.
#[derive(Debug, Clone, PartialEq)]
pub struct GrammarRule {
    pub left_side: String,
    pub right_side: Vec<String>,
    pub semantic_action: Option<String>,
}

impl GrammarRule {
    /// A production without a semantic action.
    pub fn new(left: &str, right: Vec<&str>) -> (r: Self)
        ensures
            r.left_side@ == left@,
            r.right_side@.map_values(|s: String| s@) == right@.map_values(|s: &str| s@),
            r.semantic_action is None,
    {
        let mut symbols: Vec<String> = Vec::new();
        let mut i: usize = 0;
        while i < right.len()
            invariant
                i <= right.len(),
                symbols@.map_values(|s: String| s@) == right@.map_values(|s: &str| s@).take(
                    i as int,
                ),
            decreases right.len() - i,
        {
            let ghost before = symbols@.map_values(|s: String| s@);
            symbols.push(String::from_str(right[i]));
            proof {
                let all = right@.map_values(|s: &str| s@);
                assert(symbols@.map_values(|s: String| s@) =~= before.push(all[i as int]));
                assert(all.take(i + 1) =~= all.take(i as int).push(all[i as int]));
            }
            i += 1;
        }
        proof {
            let all = right@.map_values(|s: &str| s@);
            assert(all.take(right.len() as int) =~= all);
        }
        GrammarRule { left_side: String::from_str(left), right_side: symbols, semantic_action: None }
    }
}

/// A grammar.
#[derive(Debug)]
pub struct Grammar {
    pub terminals: Vec<Terminal>,
    pub non_terminals: Vec<NonTerminal>,
    pub rules: Vec<GrammarRule>,
    pub start_symbol: String,
}

impl Grammar {
    /// A grammar without rules, whose start symbol is `Program`.
    pub fn new() -> (r: Self)
        ensures
            r.terminals@.len() == 0,
            r.non_terminals@.len() == 0,
            r.rules@.len() == 0,
            r.start_symbol@ == "Program"@,
    {
        Grammar {
            terminals: Vec::new(),
            non_terminals: Vec::new(),
            rules: Vec::new(),
            start_symbol: String::from_str("Program"),
        }
    }

    /// Adds a rule at the end.
    pub fn add_rule(&mut self, rule: GrammarRule)
        ensures
            final(self).rules@ == old(self).rules@.push(rule),
            final(self).terminals == old(self).terminals,
            final(self).non_terminals == old(self).non_terminals,
            final(self).start_symbol == old(self).start_symbol,
    {
        self.rules.push(rule);
    }

    /// The rules whose left side is `non_terminal`, in their order.
    pub fn get_rules_for_non_terminal(&self, non_terminal: &str) -> (r: Vec<&GrammarRule>)
        ensures
            r@.map_values(|x: &GrammarRule| *x) == self.rules@.filter(
                |x: GrammarRule| x.left_side@ == non_terminal@,
            ),
    {
        let wanted = String::from_str(non_terminal);
        let ghost pred = |x: GrammarRule| x.left_side@ == non_terminal@;
        let mut out: Vec<&GrammarRule> = Vec::new();
        let mut i: usize = 0;
        proof {
            reveal(Seq::filter);
            assert(self.rules@.take(0).filter(pred) =~= Seq::empty());
        }
        while i < self.rules.len()
            invariant
                i <= self.rules.len(),
                wanted@ == non_terminal@,
                pred == |x: GrammarRule| x.left_side@ == non_terminal@,
                out@.map_values(|x: &GrammarRule| *x) == self.rules@.take(i as int).filter(pred),
            decreases self.rules.len() - i,
        {
            let ghost before = out@.map_values(|x: &GrammarRule| *x);
            proof {
                reveal(Seq::filter);
                let head = self.rules@.take(i + 1);
                assert(head.drop_last() =~= self.rules@.take(i as int));
                assert(head.last() == self.rules@[i as int]);
            }
            if self.rules[i].left_side == wanted {
                out.push(&self.rules[i]);
                proof {
                    assert(out@.map_values(|x: &GrammarRule| *x) =~= before.push(
                        self.rules@[i as int],
                    ));
                }
            }
            i += 1;
        }
        proof {
            assert(self.rules@.take(self.rules.len() as int) =~= self.rules@);
        }
        out
    }
}

} // verus!
