//! The override merger: it lays the override layers of one run into a
//! single ordered sequence of `path=value` strings, in ascending
//! precedence, where for one path the last entry wins.

use crate::text::append_clones;
use crate::text::lemma_views_of_concat;
use crate::text::views_of;
use crate::toggles::enable_override;
use crate::toggles::spec_cli_overrides;
use crate::toggles::spec_enable_override;
use crate::toggles::SubagentToggleArgs;
use vstd::prelude::*;
use vstd::string::StringExecFns;

verus! {

/// The TOML scalar encoding of a string value, as the TOML serializer
/// writes it: a quoted form that reads back as the same characters.
pub uninterp spec fn toml_string_repr(s: Seq<char>) -> Seq<char>;

/// Relies on the `Display` of `toml::Value`: a string value is written as
/// one quoted and escaped TOML string scalar, chosen from the characters
/// of the string alone.
#[verifier::external_body]
fn toml_encode_string(s: &String) -> (r: String)
    ensures
        r@ == toml_string_repr(s@),
{
    toml::Value::String(s.clone()).to_string()
}

/// The override that injects a prompt as the executor's base instructions.
pub open spec fn spec_base_instructions(prompt: Seq<char>) -> Seq<char> {
    "base_instructions="@ + toml_string_repr(prompt)
}

/// The final override sequence of one run, in ascending precedence:
/// the caller's textual overrides (root scope before subcommand scope,
/// already in that order), then one override per toggle flag, then the
/// forced enable of the subagent being run, then the injected system
/// prompt when the resolved definition carries one.
pub open spec fn spec_assembled_overrides(
    user: Seq<Seq<char>>,
    enable: Seq<Seq<char>>,
    disable: Seq<Seq<char>>,
    name: Seq<char>,
    prompt: Option<Seq<char>>,
) -> Seq<Seq<char>> {
    user + spec_cli_overrides(enable, disable) + seq![spec_enable_override(name, true)] + (
    match prompt {
        Some(p) => seq![spec_base_instructions(p)],
        None => Seq::empty(),
    })
}

/// Concatenates the root-scope and subcommand-scope textual overrides,
/// root scope first, so it carries the lowest precedence.
pub fn combine_user_overrides(root: &Vec<String>, subcommand: &Vec<String>) -> (r: Vec<String>)
    ensures
        r.deep_view() == root.deep_view() + subcommand.deep_view(),
{
    let mut out: Vec<String> = Vec::new();
    append_clones(&mut out, root);
    proof {
        assert(out.deep_view() =~= root.deep_view());
    }
    append_clones(&mut out, subcommand);
    proof {
        assert(out.deep_view() =~= root.deep_view() + subcommand.deep_view());
    }
    out
}

/// Builds the final override sequence for running `name` with the given
/// caller overrides, toggle flags and resolved system prompt.
pub fn assemble_overrides(
    user: &Vec<String>,
    toggles: &SubagentToggleArgs,
    name: &String,
    system_prompt: &Option<String>,
) -> (r: Vec<String>)
    ensures
        r.deep_view() == spec_assembled_overrides(
            user.deep_view(),
            toggles.enable.deep_view(),
            toggles.disable.deep_view(),
            name@,
            system_prompt.deep_view(),
        ),
{
    let ghost u = user.deep_view();
    let ghost cli = spec_cli_overrides(toggles.enable.deep_view(), toggles.disable.deep_view());
    let mut out: Vec<String> = Vec::new();
    append_clones(&mut out, user);
    proof {
        assert(out.deep_view() =~= views_of(out@));
        assert(views_of(out@) == u);
    }
    let mut toggle_overrides = toggles.to_cli_overrides();
    let ghost tv = toggle_overrides@;
    proof {
        assert(toggle_overrides.deep_view() =~= views_of(tv));
        assert(views_of(tv) == cli);
    }
    let ghost pre1 = out@;
    out.append(&mut toggle_overrides);
    proof {
        assert(out@ == pre1 + tv);
        lemma_views_of_concat(pre1, tv);
        assert(views_of(out@) =~= u + cli);
    }
    let forced = enable_override(name, true);
    let ghost pre2 = out@;
    out.push(forced);
    proof {
        assert(out@ == pre2.push(forced));
        assert(pre2.push(forced) =~= pre2 + seq![forced]);
        lemma_views_of_concat(pre2, seq![forced]);
        assert(views_of(seq![forced]) =~= seq![spec_enable_override(name@, true)]);
        assert(views_of(out@) =~= (u + cli) + seq![spec_enable_override(name@, true)]);
    }
    match system_prompt {
        Some(prompt) => {
            let encoded = toml_encode_string(prompt);
            let mut line = String::from_str("base_instructions=");
            line.append(encoded.as_str());
            proof {
                assert(line@ =~= spec_base_instructions(prompt@));
            }
            let ghost pre3 = out@;
            out.push(line);
            proof {
                assert(out@ == pre3.push(line));
                assert(pre3.push(line) =~= pre3 + seq![line]);
                lemma_views_of_concat(pre3, seq![line]);
                assert(views_of(seq![line]) =~= seq![spec_base_instructions(prompt@)]);
                assert(views_of(out@) =~= spec_assembled_overrides(
                    u,
                    toggles.enable.deep_view(),
                    toggles.disable.deep_view(),
                    name@,
                    system_prompt.deep_view(),
                ));
                assert(out.deep_view() =~= views_of(out@));
            }
        },
        None => {
            proof {
                assert(views_of(out@) =~= spec_assembled_overrides(
                    u,
                    toggles.enable.deep_view(),
                    toggles.disable.deep_view(),
                    name@,
                    system_prompt.deep_view(),
                ));
                assert(out.deep_view() =~= views_of(out@));
            }
        },
    }
    out
}


/// The index of the first `=` in an override entry (the entry's length
/// when it has none): the split between the path and the value.
pub open spec fn eq_split(entry: Seq<char>) -> int
    decreases entry.len(),
{
    if entry.len() == 0 {
        0
    } else if entry[0] == '=' {
        0
    } else {
        1 + eq_split(entry.skip(1))
    }
}

/// The path part of a textual override: the characters before its first
/// `=`.
pub open spec fn override_path(entry: Seq<char>) -> Seq<char> {
    entry.take(eq_split(entry))
}

/// The value part of a textual override: the characters after its first
/// `=`.
pub open spec fn override_value(entry: Seq<char>) -> Seq<char> {
    entry.skip(if eq_split(entry) < entry.len() {
        eq_split(entry) + 1
    } else {
        entry.len() as int
    })
}

/// The merged reading of an override sequence: the entries folded in
/// order into a map keyed by path, where a later entry replaces the value
/// of an earlier one for the same path and touches no other path.
pub open spec fn spec_merged(overrides: Seq<Seq<char>>) -> Map<Seq<char>, Seq<char>>
    decreases overrides.len(),
{
    if overrides.len() == 0 {
        Map::empty()
    } else {
        spec_merged(overrides.drop_last()).insert(
            override_path(overrides.last()),
            override_value(overrides.last()),
        )
    }
}

/// Splitting at the first `=` passes over a prefix without one.
proof fn lemma_eq_split_concat(a: Seq<char>, b: Seq<char>)
    requires
        !a.contains('='),
    ensures
        eq_split(a + b) == a.len() + eq_split(b),
    decreases a.len(),
{
    if a.len() == 0 {
        assert(a + b =~= b);
    } else {
        assert(a[0] != '=');
        assert((a + b)[0] == a[0]);
        assert((a + b).skip(1) =~= a.skip(1) + b);
        assert(!a.skip(1).contains('=')) by {
            if a.skip(1).contains('=') {
                let i = choose|i: int| 0 <= i < a.skip(1).len() && a.skip(1)[i] == '=';
                assert(a[i + 1] == '=');
            }
        }
        lemma_eq_split_concat(a.skip(1), b);
    }
}

/// For every run, the merged reading of the assembled sequence maps the
/// target's enabled path to `true`: the forced override is the last entry
/// for that path, so the positional last-wins merge yields it, whatever
/// the earlier layers said. The target's name is an already-validated
/// identifier, so it carries no `=`.
pub proof fn lemma_merged_run_enables_target(
    user: Seq<Seq<char>>,
    enable: Seq<Seq<char>>,
    disable: Seq<Seq<char>>,
    name: Seq<char>,
    prompt: Option<Seq<char>>,
)
    requires
        !name.contains('='),
    ensures
        spec_merged(spec_assembled_overrides(user, enable, disable, name, prompt)).dom().contains(
            "subagents."@ + name + ".enabled"@,
        ),
        spec_merged(spec_assembled_overrides(user, enable, disable, name, prompt))["subagents."@
            + name + ".enabled"@] == "true"@,
{
    let forced = spec_enable_override(name, true);
    let path = "subagents."@ + name + ".enabled"@;
    reveal_strlit("subagents.");
    reveal_strlit(".enabled=");
    reveal_strlit(".enabled");
    reveal_strlit("true");
    reveal_strlit("base_instructions=");
    reveal_strlit("base_instructions");
    assert(!"subagents."@.contains('=')) by {
        if "subagents."@.contains('=') {
            let i = choose|i: int| 0 <= i < "subagents."@.len() && "subagents."@[i] == '=';
        }
    }
    assert(!("subagents."@ + name).contains('=')) by {
        if ("subagents."@ + name).contains('=') {
            let i = choose|i: int|
                0 <= i < ("subagents."@ + name).len() && ("subagents."@ + name)[i] == '=';
            if i >= "subagents."@.len() {
                assert(name[i - "subagents."@.len()] == '=');
            }
        }
    }
    assert(!(("subagents."@ + name) + ".enabled"@).contains('=')) by {
        if (("subagents."@ + name) + ".enabled"@).contains('=') {
            let i = choose|i: int|
                0 <= i < (("subagents."@ + name) + ".enabled"@).len() && (("subagents."@ + name)
                    + ".enabled"@)[i] == '=';
            if i < ("subagents."@ + name).len() {
                assert(("subagents."@ + name)[i] == '=');
            } else {
                assert(".enabled"@[i - ("subagents."@ + name).len()] == '=');
            }
        }
    }
    // The forced entry splits into the enabled path and the value `true`.
    assert(forced =~= (("subagents."@ + name) + ".enabled"@) + ("="@ + "true"@)) by {
        reveal_strlit("=");
    }
    assert(eq_split("="@ + "true"@) == 0) by {
        reveal_strlit("=");
        assert(("="@ + "true"@)[0] == '=');
    }
    lemma_eq_split_concat(("subagents."@ + name) + ".enabled"@, "="@ + "true"@);
    assert(eq_split(forced) == (("subagents."@ + name) + ".enabled"@).len());
    assert(override_path(forced) =~= ("subagents."@ + name) + ".enabled"@);
    assert(override_value(forced) =~= "true"@);
    assert(path =~= ("subagents."@ + name) + ".enabled"@);

    let assembled = spec_assembled_overrides(user, enable, disable, name, prompt);
    let upto_forced = user + spec_cli_overrides(enable, disable) + seq![forced];
    match prompt {
        Some(p) => {
            let base = spec_base_instructions(p);
            assert(assembled =~= upto_forced + seq![base]);
            assert(assembled.last() == base);
            assert(assembled.drop_last() =~= upto_forced);
            // The trailing prompt entry lives under a different path.
            assert(!"base_instructions"@.contains('=')) by {
                if "base_instructions"@.contains('=') {
                    let i = choose|i: int|
                        0 <= i < "base_instructions"@.len() && "base_instructions"@[i] == '=';
                }
            }
            assert(base =~= "base_instructions"@ + ("="@ + toml_string_repr(p))) by {
                reveal_strlit("=");
            }
            assert(eq_split("="@ + toml_string_repr(p)) == 0) by {
                reveal_strlit("=");
                assert(("="@ + toml_string_repr(p))[0] == '=');
            }
            lemma_eq_split_concat("base_instructions"@, "="@ + toml_string_repr(p));
            assert(override_path(base) =~= "base_instructions"@);
            assert(override_path(base) != path) by {
                assert(override_path(base)[0] == 'b');
                assert(path[0] == 's');
            }
            assert(upto_forced.last() == forced);
            assert(spec_merged(upto_forced)[path] == "true"@);
        },
        None => {
            assert(assembled =~= upto_forced);
            assert(assembled.last() == forced);
            assert(assembled.drop_last() =~= user + spec_cli_overrides(enable, disable));
        },
    }
}

/// For every run of a subagent, the assembled sequence holds the forced
/// enable override for that subagent directly after all toggle-derived
/// overrides, whatever those toggles say: the run enables its own target.
pub proof fn lemma_run_forces_enable(
    user: Seq<Seq<char>>,
    enable: Seq<Seq<char>>,
    disable: Seq<Seq<char>>,
    name: Seq<char>,
    prompt: Option<Seq<char>>,
)
    ensures
        spec_assembled_overrides(user, enable, disable, name, prompt).len() >= user.len()
            + enable.len() + disable.len() + 1,
        spec_assembled_overrides(user, enable, disable, name, prompt)[(user.len() + enable.len()
            + disable.len()) as int] == spec_enable_override(name, true),
        forall|i: int|
            user.len() <= i < user.len() + enable.len() + disable.len()
                ==> spec_assembled_overrides(user, enable, disable, name, prompt)[i]
                == spec_cli_overrides(enable, disable)[i - user.len()],
{
    crate::toggles::lemma_cli_overrides_order(enable, disable);
}

} // verus!
