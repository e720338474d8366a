//! Per-invocation enable/disable toggles and their two derived views: a
//! name-to-enabled map (disable wins) and an ordered list of textual
//! overrides (one per flag, enables first, then disables).

use vstd::prelude::*;
use vstd::string::StringExecFns;

verus! {

/// The map described by `entries` read in order: a later entry for the
/// same name replaces an earlier one.
pub open spec fn map_of(entries: Seq<(String, bool)>) -> Map<Seq<char>, bool>
    decreases entries.len(),
{
    if entries.len() == 0 {
        Map::empty()
    } else {
        map_of(entries.drop_last()).insert(entries.last().0@, entries.last().1)
    }
}

/// A name-to-enabled mapping built by applying entries in order, so that
/// the last entry for a name wins.
pub struct ToggleMap {
    entries: Vec<(String, bool)>,
}

impl View for ToggleMap {
    type V = Map<Seq<char>, bool>;

    closed spec fn view(&self) -> Map<Seq<char>, bool> {
        map_of(self.entries@)
    }
}

impl ToggleMap {
    /// An empty mapping.
    pub fn new() -> (r: ToggleMap)
        ensures
            r@ == Map::<Seq<char>, bool>::empty(),
    {
        ToggleMap { entries: Vec::new() }
    }

    /// Applies one more entry; it wins over earlier entries for `name`.
    pub fn set(&mut self, name: String, value: bool)
        ensures
            final(self)@ == old(self)@.insert(name@, value),
    {
        self.entries.push((name, value));
        proof {
            assert(self.entries@.drop_last() =~= old(self).entries@);
        }
    }

    /// The value the map holds for `name`, if any.
    pub fn get(&self, name: &String) -> (r: Option<bool>)
        ensures
            self@.dom().contains(name@) ==> r == Some(self@[name@]),
            !self@.dom().contains(name@) ==> r is None,
    {
        let ghost es = self.entries@;
        let mut i: usize = self.entries.len();
        proof {
            assert(es.take(es.len() as int) =~= es);
        }
        while i > 0
            invariant
                i <= es.len(),
                es == self.entries@,
                self@ == map_of(es),
                self@.dom().contains(name@) ==> map_of(es.take(i as int)).dom().contains(name@)
                    && map_of(es.take(i as int))[name@] == self@[name@],
                !self@.dom().contains(name@) ==> !map_of(es.take(i as int)).dom().contains(name@),
            decreases i,
        {
            proof {
                assert(es.take(i as int).last() == es[i as int - 1]);
                assert(es.take(i as int).drop_last() =~= es.take(i as int - 1));
            }
            if self.entries[i - 1].0 == *name {
                return Some(self.entries[i - 1].1);
            }
            i = i - 1;
        }
        proof {
            assert(es.take(0) =~= Seq::<(String, bool)>::empty());
        }
        None
    }
}

/// The toggle flags of one invocation: the subagent names given to the
/// enable flag and to the disable flag, each in flag order.
pub struct SubagentToggleArgs {
    pub enable: Vec<String>,
    pub disable: Vec<String>,
}

/// `m` after entries for all of `names` were applied in order, each set to
/// `value`.
pub open spec fn set_all(m: Map<Seq<char>, bool>, names: Seq<Seq<char>>, value: bool) -> Map<
    Seq<char>,
    bool,
>
    decreases names.len(),
{
    if names.len() == 0 {
        m
    } else {
        set_all(m, names.drop_last(), value).insert(names.last(), value)
    }
}

/// The enabled map of a toggle set: enables applied first, disables after
/// them, so a name in both comes out disabled.
pub open spec fn spec_toggle_map(enable: Seq<Seq<char>>, disable: Seq<Seq<char>>) -> Map<
    Seq<char>,
    bool,
> {
    set_all(set_all(Map::empty(), enable, true), disable, false)
}

/// The textual override for one toggle flag:
/// `subagents.<name>.enabled=<true|false>`.
pub open spec fn spec_enable_override(name: Seq<char>, value: bool) -> Seq<char> {
    "subagents."@ + name + ".enabled="@ + (if value {
        "true"@
    } else {
        "false"@
    })
}

/// The textual overrides of a toggle set, one per flag occurrence: all
/// enables in flag order, then all disables in flag order.
pub open spec fn spec_cli_overrides(enable: Seq<Seq<char>>, disable: Seq<Seq<char>>) -> Seq<
    Seq<char>,
> {
    enable.map_values(|n: Seq<char>| spec_enable_override(n, true)) + disable.map_values(
        |n: Seq<char>| spec_enable_override(n, false),
    )
}

/// Builds the textual override for one toggle flag.
pub fn enable_override(name: &String, value: bool) -> (r: String)
    ensures
        r@ == spec_enable_override(name@, value),
{
    let mut out = String::from_str("subagents.");
    out.append(name.as_str());
    out.append(".enabled=");
    if value {
        out.append("true");
    } else {
        out.append("false");
    }
    proof {
        assert(out@ =~= spec_enable_override(name@, value));
    }
    out
}

impl SubagentToggleArgs {
    /// The name-to-enabled view: every enable is applied, then every
    /// disable, so for a name under both kinds of flag disable wins.
    pub fn to_map(&self) -> (r: ToggleMap)
        ensures
            r@ == spec_toggle_map(self.enable.deep_view(), self.disable.deep_view()),
    {
        let ghost e = self.enable.deep_view();
        let ghost d = self.disable.deep_view();
        let mut toggles = ToggleMap::new();
        let mut i: usize = 0;
        while i < self.enable.len()
            invariant
                i <= self.enable.len(),
                e == self.enable.deep_view(),
                toggles@ == set_all(Map::<Seq<char>, bool>::empty(), e.take(i as int), true),
            decreases self.enable.len() - i,
        {
            proof {
                assert(e.take(i as int + 1).drop_last() =~= e.take(i as int));
                assert(e.take(i as int + 1).last() == e[i as int]);
                assert(e[i as int] == self.enable@[i as int]@);
            }
            toggles.set(self.enable[i].clone(), true);
            i = i + 1;
        }
        proof {
            assert(e.take(self.enable@.len() as int) =~= e);
        }
        let mut j: usize = 0;
        while j < self.disable.len()
            invariant
                j <= self.disable.len(),
                e == self.enable.deep_view(),
                d == self.disable.deep_view(),
                toggles@ == set_all(
                    set_all(Map::<Seq<char>, bool>::empty(), e, true),
                    d.take(j as int),
                    false,
                ),
            decreases self.disable.len() - j,
        {
            proof {
                assert(d.take(j as int + 1).drop_last() =~= d.take(j as int));
                assert(d.take(j as int + 1).last() == d[j as int]);
                assert(d[j as int] == self.disable@[j as int]@);
            }
            toggles.set(self.disable[j].clone(), false);
            j = j + 1;
        }
        proof {
            assert(d.take(self.disable@.len() as int) =~= d);
        }
        toggles
    }

    /// The textual override view: one override string per flag occurrence,
    /// enables in flag order, then disables in flag order; duplicates are
    /// kept.
    pub fn to_cli_overrides(&self) -> (r: Vec<String>)
        ensures
            r.deep_view() == spec_cli_overrides(self.enable.deep_view(), self.disable.deep_view()),
    {
        let ghost e = self.enable.deep_view();
        let ghost d = self.disable.deep_view();
        let ghost enables = e.map_values(|n: Seq<char>| spec_enable_override(n, true));
        let ghost disables = d.map_values(|n: Seq<char>| spec_enable_override(n, false));
        let mut overrides: Vec<String> = Vec::new();
        let mut i: usize = 0;
        while i < self.enable.len()
            invariant
                i <= self.enable.len(),
                e == self.enable.deep_view(),
                enables == e.map_values(|n: Seq<char>| spec_enable_override(n, true)),
                overrides.deep_view() == enables.take(i as int),
            decreases self.enable.len() - i,
        {
            let s = enable_override(&self.enable[i], true);
            let ghost pre = overrides@;
            let ghost predv = overrides.deep_view();
            proof {
                assert(e[i as int] == self.enable@[i as int]@);
            }
            overrides.push(s);
            proof {
                assert(overrides@ == pre.push(s));
                assert(enables.len() == e.len());
                assert(predv.len() == pre.len());
                assert(predv.len() == i as int);
                assert forall|k: int| 0 <= k < overrides@.len() implies overrides.deep_view()[k]
                    == enables.take(i as int + 1)[k] by {
                    assert(overrides.deep_view()[k] == overrides@[k].deep_view());
                    if k < i {
                        assert(overrides@[k] == pre[k]);
                        assert(predv[k] == pre[k].deep_view());
                        assert(predv[k] == enables.take(i as int)[k]);
                    } else {
                        assert(overrides@[k] == s);
                        assert(s.deep_view() == s@);
                        assert(enables[i as int] == spec_enable_override(e[i as int], true));
                    }
                }
                assert(overrides.deep_view() =~= enables.take(i as int + 1));
            }
            i = i + 1;
        }
        let mut j: usize = 0;
        while j < self.disable.len()
            invariant
                j <= self.disable.len(),
                d == self.disable.deep_view(),
                disables == d.map_values(|n: Seq<char>| spec_enable_override(n, false)),
                enables == e.map_values(|n: Seq<char>| spec_enable_override(n, true)),
                e == self.enable.deep_view(),
                overrides.deep_view() == enables + disables.take(j as int),
            decreases self.disable.len() - j,
        {
            let s = enable_override(&self.disable[j], false);
            let ghost pre = overrides@;
            let ghost predv = overrides.deep_view();
            proof {
                assert(d[j as int] == self.disable@[j as int]@);
            }
            overrides.push(s);
            proof {
                assert(overrides@ == pre.push(s));
                assert(enables.len() == e.len());
                assert(disables.len() == d.len());
                assert(predv.len() == pre.len());
                assert(predv.len() == enables.len() + j as int);
                assert forall|k: int| 0 <= k < overrides@.len() implies overrides.deep_view()[k]
                    == (enables + disables.take(j as int + 1))[k] by {
                    assert(overrides.deep_view()[k] == overrides@[k].deep_view());
                    if k < pre.len() {
                        assert(overrides@[k] == pre[k]);
                        assert(predv[k] == pre[k].deep_view());
                        assert(predv[k] == (enables + disables.take(j as int))[k]);
                    } else {
                        assert(overrides@[k] == s);
                        assert(s.deep_view() == s@);
                        assert(disables[j as int] == spec_enable_override(d[j as int], false));
                        assert((enables + disables.take(j as int + 1))[k] == disables.take(
                            j as int + 1,
                        )[k - enables.len()]);
                    }
                }
                assert(overrides.deep_view() =~= enables + disables.take(j as int + 1));
            }
            j = j + 1;
        }
        proof {
            assert(enables.take(e.len() as int) =~= enables);
            assert(disables.take(d.len() as int) =~= disables);
            assert(overrides.deep_view() =~= spec_cli_overrides(e, d));
        }
        overrides
    }
}

/// For every toggle set, the enabled map gives disable precedence: a name
/// under a disable flag maps to disabled, whatever enable flags say.
pub proof fn lemma_toggle_map_disable_wins(
    enable: Seq<Seq<char>>,
    disable: Seq<Seq<char>>,
    name: Seq<char>,
)
    requires
        disable.contains(name),
    ensures
        spec_toggle_map(enable, disable).dom().contains(name),
        spec_toggle_map(enable, disable)[name] == false,
{
    lemma_set_all_contained(set_all(Map::empty(), enable, true), disable, false, name);
}

/// After `set_all`, every listed name maps to the given value.
proof fn lemma_set_all_contained(
    m: Map<Seq<char>, bool>,
    names: Seq<Seq<char>>,
    value: bool,
    name: Seq<char>,
)
    requires
        names.contains(name),
    ensures
        set_all(m, names, value).dom().contains(name),
        set_all(m, names, value)[name] == value,
    decreases names.len(),
{
    if names.last() != name {
        let i = choose|i: int| 0 <= i < names.len() && names[i] == name;
        assert(names.drop_last()[i] == name);
        assert(names.drop_last().contains(name));
        lemma_set_all_contained(m, names.drop_last(), value, name);
    }
}

/// For every toggle set, the override view keeps flag order and emits one
/// override per occurrence: enables first, each at its flag position, then
/// disables, each at its flag position; duplicates are not collapsed.
pub proof fn lemma_cli_overrides_order(enable: Seq<Seq<char>>, disable: Seq<Seq<char>>)
    ensures
        spec_cli_overrides(enable, disable).len() == enable.len() + disable.len(),
        forall|i: int|
            0 <= i < enable.len() ==> spec_cli_overrides(enable, disable)[i]
                == spec_enable_override(enable[i], true),
        forall|i: int|
            0 <= i < disable.len() ==> spec_cli_overrides(enable, disable)[enable.len() + i]
                == spec_enable_override(disable[i], false),
{
}

} // verus!
