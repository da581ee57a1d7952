//! The sanitized child environment: every child runs without the inherited
//! locale variables, so that the tools' output keeps a fixed wording that
//! callers can parse, and caller-supplied overrides are applied on top.

use vstd::prelude::*;
use vstd::string::StringExecFns;

verus! {

/// The eight locale variable names that are stripped from every child
/// environment.
pub open spec fn is_locale_name(s: Seq<char>) -> bool {
    s == "LANG"@ || s == "LC_CTYPE"@ || s == "LC_NUMERIC"@ || s == "LC_TIME"@ || s
        == "LC_COLLATE"@ || s == "LC_MONETARY"@ || s == "LC_MESSAGES"@ || s == "LC_ALL"@
}

/// True when the name is one of the eight locale variables.
pub fn is_locale_var(name: &String) -> (r: bool)
    ensures
        r == is_locale_name(name@),
{
    name.eq(&String::from_str("LANG")) || name.eq(&String::from_str("LC_CTYPE")) || name.eq(
        &String::from_str("LC_NUMERIC"),
    ) || name.eq(&String::from_str("LC_TIME")) || name.eq(&String::from_str("LC_COLLATE"))
        || name.eq(&String::from_str("LC_MONETARY")) || name.eq(&String::from_str("LC_MESSAGES"))
        || name.eq(&String::from_str("LC_ALL"))
}

/// True when some pair of `env` has `k` as its key.
pub open spec fn has_key(env: Seq<(String, String)>, k: Seq<char>) -> bool {
    exists|i: int| 0 <= i < env.len() && (#[trigger] env[i]).0@ == k
}

fn env_has_key(env: &Vec<(String, String)>, key: &String) -> (r: bool)
    ensures
        r == has_key(env@, key@),
{
    let mut i: usize = 0;
    while i < env.len()
        invariant
            i <= env.len(),
            forall|k: int| 0 <= k < i ==> (#[trigger] env@[k]).0@ != key@,
        decreases env.len() - i,
    {
        if env[i].0.eq(key) {
            proof {
                assert(env@[i as int].0@ == key@);
            }
            return true;
        }
        i = i + 1;
    }
    false
}

/// The environment actually handed to a child: the ambient pairs with the
/// locale variables removed and the overridden keys dropped, followed by the
/// overrides themselves.
pub open spec fn sanitized_env(ambient: Seq<(String, String)>, ov: Seq<(String, String)>) -> Seq<
    (String, String),
>
    decreases ambient.len(),
{
    if ambient.len() == 0 {
        ov
    } else if is_locale_name(ambient[0].0@) || has_key(ov, ambient[0].0@) {
        sanitized_env(ambient.drop_first(), ov)
    } else {
        seq![ambient[0]] + sanitized_env(ambient.drop_first(), ov)
    }
}

fn clone_pairs(v: &Vec<(String, String)>) -> (r: Vec<(String, String)>)
    ensures
        r@ == v@,
{
    let mut out: Vec<(String, String)> = Vec::new();
    let mut i: usize = 0;
    while i < v.len()
        invariant
            i <= v.len(),
            out@ =~= v@.take(i as int),
        decreases v.len() - i,
    {
        out.push((v[i].0.clone(), v[i].1.clone()));
        proof {
            assert(out@ =~= v@.take(i as int + 1));
        }
        i = i + 1;
    }
    proof {
        assert(v@.take(v@.len() as int) =~= v@);
    }
    out
}

/// The caller's overrides as one owned list: the pairs kept in order when
/// some were given, nothing when none were.
pub fn build_env(env: Option<&Vec<(String, String)>>) -> (r: Option<Vec<(String, String)>>)
    ensures
        (match env {
            Some(v) => r matches Some(o) && o@ == v@,
            None => r is None,
        }),
{
    match env {
        Some(v) => Some(clone_pairs(v)),
        None => None,
    }
}

/// The overrides a caller gave, or nothing.
pub open spec fn override_view(overrides: Option<&Vec<(String, String)>>) -> Seq<(String, String)> {
    match overrides {
        Some(v) => v@,
        None => Seq::empty(),
    }
}

/// The environment for a child: the ambient environment without the eight
/// locale variables and without the overridden keys, then the overrides.
pub fn sanitize_env(ambient: &Vec<(String, String)>, overrides: Option<&Vec<(String, String)>>) -> (r:
    Vec<(String, String)>)
    ensures
        r@ == sanitized_env(ambient@, override_view(overrides)),
{
    let ghost ovs = override_view(overrides);
    let mut out: Vec<(String, String)> = Vec::new();
    let mut i: usize = 0;
    proof {
        assert(ambient@.skip(0) =~= ambient@);
        assert(Seq::<(String, String)>::empty() + sanitized_env(ambient@, ovs) =~= sanitized_env(
            ambient@,
            ovs,
        ));
    }
    while i < ambient.len()
        invariant
            i <= ambient.len(),
            ovs == override_view(overrides),
            out@ + sanitized_env(ambient@.skip(i as int), ovs) == sanitized_env(ambient@, ovs),
        decreases ambient.len() - i,
    {
        let dropped = is_locale_var(&ambient[i].0) || (match overrides {
            Some(ov) => env_has_key(ov, &ambient[i].0),
            None => false,
        });
        proof {
            assert(ambient@.skip(i as int).drop_first() =~= ambient@.skip(i as int + 1));
            assert(ambient@.skip(i as int)[0] == ambient@[i as int]);
        }
        if !dropped {
            out.push((ambient[i].0.clone(), ambient[i].1.clone()));
            proof {
                assert(out@ =~= out@.drop_last() + seq![ambient@[i as int]]);
                assert(out@ + sanitized_env(ambient@.skip(i as int + 1), ovs) =~= out@.drop_last()
                    + sanitized_env(ambient@.skip(i as int), ovs));
            }
        }
        i = i + 1;
    }
    proof {
        assert(ambient@.skip(ambient@.len() as int) =~= Seq::<(String, String)>::empty());
    }
    match overrides {
        Some(ov) => {
            let mut tail = clone_pairs(ov);
            out.append(&mut tail);
            proof {
                assert(out@ =~= sanitized_env(ambient@, ovs));
            }
        },
        None => {
            proof {
                assert(out@ + Seq::<(String, String)>::empty() =~= out@);
            }
        },
    }
    out
}

/// A locale variable reaches a child's environment only when an override
/// explicitly reintroduces it: a pair of the sanitized environment whose key
/// is one of the eight locale names always has its key among the overrides.
pub proof fn lemma_locale_vars_stripped(
    ambient: Seq<(String, String)>,
    ov: Seq<(String, String)>,
    name: Seq<char>,
)
    requires
        is_locale_name(name),
        !has_key(ov, name),
    ensures
        !has_key(sanitized_env(ambient, ov), name),
    decreases ambient.len(),
{
    if ambient.len() == 0 {
    } else {
        lemma_locale_vars_stripped(ambient.drop_first(), ov, name);
        let rest = sanitized_env(ambient.drop_first(), ov);
        if !(is_locale_name(ambient[0].0@) || has_key(ov, ambient[0].0@)) {
            let whole = seq![ambient[0]] + rest;
            assert forall|i: int| 0 <= i < whole.len() implies (#[trigger] whole[i]).0@
                != name by {
                if i == 0 {
                    assert(whole[0] == ambient[0]);
                } else {
                    assert(whole[i] == rest[i - 1]);
                }
            }
        }
    }
}

} // verus!
