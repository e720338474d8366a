//! Subagent definitions, the store that resolves them by name, and the
//! error raised when a requested name is unknown.

use crate::text::lex_lt;
use crate::text::lex_lt_irreflexive;
use crate::text::lex_lt_transitive;
use crate::text::lex_lt_trichotomy;
use crate::text::str_lex_lt;
use crate::toggles::ToggleMap;
use vstd::prelude::*;
use vstd::string::StringExecFns;

verus! {

/// A named persona bundle: prompt, tool allowlist, context sources and
/// trigger phrases, plus the merged `enabled` state.
///
/// An empty `allowed_tools` means "inherit the default tool set", an empty
/// `context_sources` means "none", and an empty `triggers` means "manual
/// invocation only". `enabled` is the final value after every override
/// layer was applied.
pub struct SubagentDefinition {
    pub name: String,
    pub display_name: Option<String>,
    pub description: Option<String>,
    pub system_prompt: Option<String>,
    pub enabled: bool,
    pub allowed_tools: Vec<String>,
    pub context_sources: Vec<String>,
    pub triggers: Vec<String>,
}

/// A failure of a query or of a run request.
#[derive(Debug)]
pub enum SubagentError {
    /// The requested name is not present in the definition store.
    UnknownSubagent { name: String },
}

/// The user-facing message for an unknown subagent: it always carries the
/// requested name between backquotes.
pub open spec fn spec_unknown_message(name: Seq<char>) -> Seq<char> {
    "unknown subagent `"@ + name + "`"@
}

impl SubagentError {
    /// The human-readable message for this error.
    pub fn message(&self) -> (r: String)
        ensures
            self matches SubagentError::UnknownSubagent { name } ==> r@ == spec_unknown_message(
                name@,
            ),
    {
        match self {
            SubagentError::UnknownSubagent { name } => {
                let mut out = String::from_str("unknown subagent `");
                out.append(name.as_str());
                out.append("`");
                proof {
                    assert(out@ =~= spec_unknown_message(name@));
                }
                out
            },
        }
    }
}

/// The first definition in `s` whose name reads `name`, if any.
pub open spec fn seq_find(s: Seq<SubagentDefinition>, name: Seq<char>) -> Option<
    SubagentDefinition,
>
    decreases s.len(),
{
    if s.len() == 0 {
        None
    } else if s[0].name@ == name {
        Some(s[0])
    } else {
        seq_find(s.drop_first(), name)
    }
}

/// Finding in a concatenation looks at the front part first.
proof fn lemma_seq_find_append(s1: Seq<SubagentDefinition>, s2: Seq<SubagentDefinition>, name: Seq<char>)
    ensures
        seq_find(s1, name) is Some ==> seq_find(s1 + s2, name) == seq_find(s1, name),
        seq_find(s1, name) is None ==> seq_find(s1 + s2, name) == seq_find(s2, name),
    decreases s1.len(),
{
    if s1.len() == 0 {
        assert(s1 + s2 =~= s2);
    } else {
        assert((s1 + s2)[0] == s1[0]);
        assert((s1 + s2).drop_first() =~= s1.drop_first() + s2);
        lemma_seq_find_append(s1.drop_first(), s2, name);
    }
}

/// A sequence none of whose names reads `name` has no find result.
proof fn lemma_seq_find_absent(s: Seq<SubagentDefinition>, name: Seq<char>)
    requires
        forall|k: int| 0 <= k < s.len() ==> (#[trigger] s[k].name@) != name,
    ensures
        seq_find(s, name) is None,
    decreases s.len(),
{
    if s.len() > 0 {
        assert(forall|k: int|
            0 <= k < s.drop_first().len() ==> (#[trigger] s.drop_first()[k].name@) != name);
        lemma_seq_find_absent(s.drop_first(), name);
    }
}

/// `d` with its enabled state replaced.
pub open spec fn spec_with_enabled(d: SubagentDefinition, e: bool) -> SubagentDefinition {
    SubagentDefinition { enabled: e, ..d }
}

/// `d` after a toggle map was applied: the mapped enabled state when the
/// map holds the definition's name, the definition unchanged otherwise.
pub open spec fn spec_toggled(d: SubagentDefinition, m: Map<Seq<char>, bool>) -> SubagentDefinition {
    if m.dom().contains(d.name@) {
        spec_with_enabled(d, m[d.name@])
    } else {
        d
    }
}

/// The resolved definitions of one invocation, kept ordered by name.
pub struct DefinitionStore {
    defs: Vec<SubagentDefinition>,
}

impl DefinitionStore {
    /// The definitions, in store order.
    pub closed spec fn defs_seq(&self) -> Seq<SubagentDefinition> {
        self.defs@
    }

    /// The store is strictly sorted by name, so names are unique and the
    /// `list` order is the lexicographic name order.
    pub open spec fn wf(&self) -> bool {
        forall|i: int, j: int|
            0 <= i < j < self.defs_seq().len() ==> lex_lt(
                (#[trigger] self.defs_seq()[i]).name@,
                (#[trigger] self.defs_seq()[j]).name@,
            )
    }

    /// Whether some definition carries `name`.
    pub open spec fn contains_name(&self, name: Seq<char>) -> bool {
        seq_find(self.defs_seq(), name) is Some
    }

    /// The definition stored under `name`, if any.
    pub open spec fn spec_get(&self, name: Seq<char>) -> Option<SubagentDefinition> {
        seq_find(self.defs_seq(), name)
    }

    /// An empty store.
    pub fn new() -> (r: DefinitionStore)
        ensures
            r.wf(),
            r.defs_seq().len() == 0,
    {
        DefinitionStore { defs: Vec::new() }
    }

    /// How many definitions the store holds.
    pub fn len(&self) -> (r: usize)
        ensures
            r == self.defs_seq().len(),
    {
        self.defs.len()
    }

    /// All resolved definitions, in store order (by name when the store is
    /// well formed).
    pub fn list(&self) -> (r: &Vec<SubagentDefinition>)
        ensures
            r@ == self.defs_seq(),
    {
        &self.defs
    }

    /// The definition stored under `name`, or `None`.
    pub fn get(&self, name: &String) -> (r: Option<&SubagentDefinition>)
        ensures
            match r {
                Some(d) => self.spec_get(name@) == Some(*d),
                None => self.spec_get(name@) is None,
            },
    {
        let ghost s = self.defs@;
        let mut i: usize = 0;
        proof {
            assert(s.skip(0) =~= s);
        }
        while i < self.defs.len()
            invariant
                i <= s.len(),
                s == self.defs@,
                seq_find(s, name@) == seq_find(s.skip(i as int), name@),
            decreases s.len() - i,
        {
            proof {
                assert(s.skip(i as int)[0] == s[i as int]);
                assert(s.skip(i as int).drop_first() =~= s.skip(i as int + 1));
            }
            if self.defs[i].name == *name {
                return Some(&self.defs[i]);
            }
            i = i + 1;
        }
        proof {
            assert(s.skip(i as int).len() == 0);
        }
        None
    }

    /// Places `def` at its sorted position, replacing the definition of the
    /// same name if one is present; every other definition is untouched.
    pub fn insert(&mut self, def: SubagentDefinition)
        requires
            old(self).wf(),
        ensures
            final(self).wf(),
            final(self).spec_get(def.name@) == Some(def),
            forall|n: Seq<char>|
                n != def.name@ ==> final(self).spec_get(n) == old(self).spec_get(n),
            old(self).contains_name(def.name@) ==> final(self).defs_seq().len() == old(
                self,
            ).defs_seq().len(),
            !old(self).contains_name(def.name@) ==> final(self).defs_seq().len() == old(
                self,
            ).defs_seq().len() + 1,
    {
        let ghost orig = self.defs@;
        let ghost dname = def.name@;
        let mut i: usize = 0;
        loop
            invariant
                i <= orig.len(),
                self.defs@ == orig,
                dname == def.name@,
                forall|k: int| 0 <= k < i ==> lex_lt((#[trigger] orig[k]).name@, dname),
            ensures
                i <= orig.len(),
                self.defs@ == orig,
                dname == def.name@,
                forall|k: int| 0 <= k < i ==> lex_lt((#[trigger] orig[k]).name@, dname),
                i < orig.len() ==> !lex_lt(orig[i as int].name@, dname),
            decreases orig.len() - i,
        {
            if i >= self.defs.len() {
                break;
            }
            if !str_lex_lt(self.defs[i].name.as_str(), def.name.as_str()) {
                break;
            }
            i = i + 1;
        }
        proof {
            // Names strictly before position i differ from the new name.
            assert forall|k: int| 0 <= k < i implies (#[trigger] orig[k]).name@ != dname by {
                if orig[k].name@ == dname {
                    lex_lt_irreflexive(dname);
                }
            }
            lemma_seq_find_absent(orig.take(i as int), dname);
        }
        if i < self.defs.len() && self.defs[i].name == def.name {
            let ghost replaced = orig[i as int];
            self.defs[i] = def;
            proof {
                let fin = self.defs@;
                assert(fin == orig.update(i as int, def));
                assert(fin =~= orig.take(i as int) + (seq![def] + orig.skip(i as int + 1)));
                assert(orig =~= orig.take(i as int) + (seq![replaced] + orig.skip(i as int + 1)));
                Self::lemma_insert_shape_find(
                    orig,
                    fin,
                    i as int,
                    def,
                    replaced,
                    true,
                );
                // Sortedness: names are unchanged except at i, where the
                // name is the same as before.
                assert forall|p: int, q: int| 0 <= p < q < fin.len() implies lex_lt(
                    (#[trigger] fin[p]).name@,
                    (#[trigger] fin[q]).name@,
                ) by {
                    assert(fin[p].name@ == orig[p].name@);
                    assert(fin[q].name@ == orig[q].name@);
                }
            }
        } else {
            proof {
                // The new name orders strictly before everything from i on.
                assert forall|k: int| i <= k < orig.len() implies lex_lt(
                    dname,
                    (#[trigger] orig[k]).name@,
                ) by {
                    lex_lt_trichotomy(dname, orig[i as int].name@);
                    assert(lex_lt(dname, orig[i as int].name@));
                    if k > i {
                        lex_lt_transitive(dname, orig[i as int].name@, orig[k].name@);
                    }
                }
                assert forall|k: int| i <= k < orig.len() implies (#[trigger] orig[k]).name@
                    != dname by {
                    if orig[k].name@ == dname {
                        lex_lt_irreflexive(dname);
                    }
                }
            }
            self.defs.insert(i, def);
            proof {
                let fin = self.defs@;
                assert(fin == orig.insert(i as int, def));
                assert(fin =~= orig.take(i as int) + (seq![def] + orig.skip(i as int)));
                assert(orig =~= orig.take(i as int) + orig.skip(i as int));
                lemma_seq_find_append(orig.take(i as int), orig.skip(i as int), dname);
                lemma_seq_find_absent(orig.skip(i as int), dname);
                Self::lemma_insert_shape_find(
                    orig,
                    fin,
                    i as int,
                    def,
                    def,
                    false,
                );
                assert forall|p: int, q: int| 0 <= p < q < fin.len() implies lex_lt(
                    (#[trigger] fin[p]).name@,
                    (#[trigger] fin[q]).name@,
                ) by {
                    if p < i && q < i {
                        assert(fin[p].name@ == orig[p].name@);
                        assert(fin[q].name@ == orig[q].name@);
                    } else if p < i && q == i {
                        assert(fin[p].name@ == orig[p].name@);
                        assert(fin[q].name@ == dname);
                        lex_lt_trichotomy(orig[p].name@, dname);
                    } else if p < i && q > i {
                        assert(fin[p].name@ == orig[p].name@);
                        assert(fin[q].name@ == orig[q - 1].name@);
                    } else if p == i {
                        assert(fin[p].name@ == dname);
                        assert(fin[q].name@ == orig[q - 1].name@);
                    } else {
                        assert(fin[p].name@ == orig[p - 1].name@);
                        assert(fin[q].name@ == orig[q - 1].name@);
                    }
                }
            }
        }
    }

    /// Applies a toggle map to every definition: a definition whose name
    /// the map holds takes the mapped enabled state; every other field,
    /// the set of definitions and their order are untouched.
    pub fn apply_toggles(&mut self, toggles: &ToggleMap)
        ensures
            final(self).defs_seq().len() == old(self).defs_seq().len(),
            forall|k: int|
                0 <= k < old(self).defs_seq().len() ==> (#[trigger] final(self).defs_seq()[k])
                    == spec_toggled(old(self).defs_seq()[k], toggles@),
            old(self).wf() ==> final(self).wf(),
    {
        let ghost orig = self.defs@;
        let n = self.defs.len();
        let mut k: usize = 0;
        while k < n
            invariant
                k <= orig.len(),
                n == orig.len(),
                self.defs@.len() == orig.len(),
                forall|t: int| k <= t < orig.len() ==> (#[trigger] self.defs@[t]) == orig[t],
                forall|t: int|
                    0 <= t < k ==> (#[trigger] self.defs@[t]) == spec_toggled(orig[t], toggles@),
            decreases n - k,
        {
            let update = toggles.get(&self.defs[k].name);
            if let Some(b) = update {
                self.defs[k].enabled = b;
            }
            k = k + 1;
        }
        proof {
            if old(self).wf() {
                assert forall|p: int, q: int|
                    0 <= p < q < self.defs@.len() implies lex_lt(
                    (#[trigger] self.defs@[p]).name@,
                    (#[trigger] self.defs@[q]).name@,
                ) by {
                    assert(self.defs@[p].name@ == orig[p].name@);
                    assert(self.defs@[q].name@ == orig[q].name@);
                }
            }
        }
    }

    /// The find facts for a store of the shape `front + [def] + tail`,
    /// where `front` is the first `i` entries of `orig`, none of them named
    /// `def.name`, and `tail` is the rest of `orig` (without its entry at
    /// `i` when `replacing`).
    proof fn lemma_insert_shape_find(
        orig: Seq<SubagentDefinition>,
        fin: Seq<SubagentDefinition>,
        i: int,
        def: SubagentDefinition,
        replaced: SubagentDefinition,
        replacing: bool,
    )
        requires
            0 <= i <= orig.len(),
            replacing ==> i < orig.len() && orig[i] == replaced && replaced.name@ == def.name@
                && fin == orig.take(i) + (seq![def] + orig.skip(i + 1)),
            !replacing ==> fin == orig.take(i) + (seq![def] + orig.skip(i)),
            forall|k: int| 0 <= k < i ==> (#[trigger] orig.take(i)[k]).name@ != def.name@,
            !replacing ==> seq_find(orig.skip(i), def.name@) is None,
        ensures
            seq_find(fin, def.name@) == Some(def),
            forall|n: Seq<char>| n != def.name@ ==> seq_find(fin, n) == seq_find(orig, n),
            replacing ==> seq_find(orig, def.name@) is Some,
            !replacing ==> seq_find(orig, def.name@) is None,
    {
        let front = orig.take(i);
        let tail: Seq<SubagentDefinition> = if replacing {
            orig.skip(i + 1)
        } else {
            orig.skip(i)
        };
        let mid = seq![def] + tail;
        let old_mid = if replacing {
            seq![replaced] + orig.skip(i + 1)
        } else {
            orig.skip(i)
        };
        assert(orig =~= front + old_mid);
        lemma_seq_find_absent(front, def.name@);

        // The new store finds `def` under its own name.
        lemma_seq_find_append(front, mid, def.name@);
        assert(mid[0] == def);
        assert(seq_find(mid, def.name@) == Some(def));
        assert(seq_find(fin, def.name@) == Some(def));

        // The old store's result under `def.name`.
        lemma_seq_find_append(front, old_mid, def.name@);
        if replacing {
            assert(old_mid[0] == replaced);
            assert(seq_find(old_mid, def.name@) == Some(replaced));
        }

        // Every other name resolves as before.
        assert forall|n: Seq<char>| n != def.name@ implies seq_find(fin, n) == seq_find(
            orig,
            n,
        ) by {
            lemma_seq_find_append(front, mid, n);
            lemma_seq_find_append(front, old_mid, n);
            if seq_find(front, n) is None {
                assert(mid[0].name@ == def.name@);
                assert(mid.drop_first() =~= tail);
                assert(seq_find(mid, n) == seq_find(tail, n));
                if replacing {
                    assert(old_mid[0].name@ == def.name@);
                    assert(old_mid.drop_first() =~= tail);
                    assert(seq_find(old_mid, n) == seq_find(tail, n));
                }
            }
        }
    }
}

} // verus!
