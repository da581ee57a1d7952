//! The thin shims over the execution core: single-line property lookups
//! through `devprop` and `svcprop`, and scripted service-configuration edits
//! through `svccfg`, with the environment overrides an alternate root
//! derives.

use vstd::prelude::*;
use vstd::string::StrSliceExecFns;
use vstd::string::StringExecFns;

use crate::command::CommandSpec;
use crate::runner::Error;
use crate::text::{lines_spec, split_lines, trim_spec, trim_str, views_of};

verus! {

/// The argument vector that looks one key up with the device-property tool.
pub fn devprop_args(key: &String) -> (r: Vec<String>)
    ensures
        views_of(r@) == seq!["/sbin/devprop"@, key@],
{
    let mut out: Vec<String> = Vec::new();
    out.push(String::from_str("/sbin/devprop"));
    out.push(key.clone());
    proof {
        assert(views_of(out@) =~= seq!["/sbin/devprop"@, key@]);
    }
    out
}

/// The argument vector that looks one property up with the service-property
/// tool.
pub fn svcprop_args(fmri: &String, prop_val: &String) -> (r: Vec<String>)
    ensures
        views_of(r@) == seq!["/usr/bin/svcprop"@, "-p"@, prop_val@, fmri@],
{
    let mut out: Vec<String> = Vec::new();
    out.push(String::from_str("/usr/bin/svcprop"));
    out.push(String::from_str("-p"));
    out.push(prop_val.clone());
    out.push(fmri.clone());
    proof {
        assert(views_of(out@) =~= seq!["/usr/bin/svcprop"@, "-p"@, prop_val@, fmri@]);
    }
    out
}

/// The trimmed forms of the lines that are non-empty after trimming, in
/// order.
pub open spec fn trimmed_nonblank(lines: Seq<Seq<char>>) -> Seq<Seq<char>>
    decreases lines.len(),
{
    if lines.len() == 0 {
        Seq::empty()
    } else if trim_spec(lines[0]).len() > 0 {
        seq![trim_spec(lines[0])] + trimmed_nonblank(lines.drop_first())
    } else {
        trimmed_nonblank(lines.drop_first())
    }
}

fn single_line(tool: &str, subject: &String, captured: &String) -> (r: Result<String, Error>)
    ensures
        trimmed_nonblank(lines_spec(captured@)).len() == 1 ==> (r matches Ok(v) && v@
            == trimmed_nonblank(lines_spec(captured@))[0]),
        trimmed_nonblank(lines_spec(captured@)).len() != 1 ==> (r matches Err(e) && e matches
            Error::UnexpectedLines { tool: t, subject: su, lines: ls } && t@ == tool@ && su@
            == subject@ && views_of(ls@) == lines_spec(captured@)),
{
    let lines = split_lines(captured.as_str());
    let mut picked: Vec<String> = Vec::new();
    let mut i: usize = 0;
    proof {
        assert(views_of(lines@).skip(0) =~= views_of(lines@));
        assert(views_of(picked@) =~= Seq::<Seq<char>>::empty());
        assert(views_of(picked@) + trimmed_nonblank(views_of(lines@)) =~= trimmed_nonblank(
            views_of(lines@),
        ));
    }
    while i < lines.len()
        invariant
            i <= lines.len(),
            views_of(lines@) == lines_spec(captured@),
            views_of(picked@) + trimmed_nonblank(views_of(lines@).skip(i as int))
                == trimmed_nonblank(views_of(lines@)),
        decreases lines.len() - i,
    {
        proof {
            assert(views_of(lines@).skip(i as int)[0] == lines@[i as int]@);
            assert(views_of(lines@).skip(i as int).drop_first() =~= views_of(lines@).skip(
                i as int + 1,
            ));
        }
        let t = trim_str(lines[i].as_str());
        if !t.as_str().is_empty() {
            picked.push(t);
            proof {
                assert(views_of(picked@) =~= views_of(picked@.drop_last()) + seq![
                    trim_spec(lines@[i as int]@),
                ]);
                assert(views_of(picked@) + trimmed_nonblank(views_of(lines@).skip(i as int + 1))
                    =~= views_of(picked@.drop_last()) + trimmed_nonblank(
                    views_of(lines@).skip(i as int),
                ));
            }
        }
        i = i + 1;
    }
    proof {
        assert(views_of(lines@).skip(lines@.len() as int) =~= Seq::<Seq<char>>::empty());
        assert(views_of(picked@) + Seq::<Seq<char>>::empty() =~= views_of(picked@));
    }
    if picked.len() == 1 {
        let mut picked = picked;
        let v = picked.remove(0);
        Ok(v)
    } else {
        Err(
            Error::UnexpectedLines {
                tool: tool.to_owned(),
                subject: subject.clone(),
                lines,
            },
        )
    }
}

/// The value a device-property lookup returns for `key`, given the captured
/// standard output of the tool: the single line that is non-empty after
/// trimming, trimmed, or an error naming the key and every observed line
/// when there is no such line or more than one.
pub fn devprop(key: &String, captured: &String) -> (r: Result<String, Error>)
    ensures
        trimmed_nonblank(lines_spec(captured@)).len() == 1 ==> (r matches Ok(v) && v@
            == trimmed_nonblank(lines_spec(captured@))[0]),
        trimmed_nonblank(lines_spec(captured@)).len() != 1 ==> (r matches Err(e) && e matches
            Error::UnexpectedLines { tool: t, subject: su, lines: ls } && t@ == "devprop"@ && su@
            == key@ && views_of(ls@) == lines_spec(captured@)),
{
    single_line("devprop", key, captured)
}

/// The value a service-property lookup returns for `fmri`, given the
/// captured standard output of the tool: the single line that is non-empty
/// after trimming, trimmed, or an error naming the identifier and every
/// observed line when there is no such line or more than one.
pub fn svcprop(fmri: &String, captured: &String) -> (r: Result<String, Error>)
    ensures
        trimmed_nonblank(lines_spec(captured@)).len() == 1 ==> (r matches Ok(v) && v@
            == trimmed_nonblank(lines_spec(captured@))[0]),
        trimmed_nonblank(lines_spec(captured@)).len() != 1 ==> (r matches Err(e) && e matches
            Error::UnexpectedLines { tool: t, subject: su, lines: ls } && t@ == "svcprop"@ && su@
            == fmri@ && views_of(ls@) == lines_spec(captured@)),
{
    single_line("svcprop", fmri, captured)
}

/// Each directive followed by one line feed, in order.
pub open spec fn joined_directives(args: Seq<Seq<char>>) -> Seq<char>
    decreases args.len(),
{
    if args.len() == 0 {
        Seq::empty()
    } else {
        args[0] + seq!['\n'] + joined_directives(args.drop_first())
    }
}

fn joined_from(args: &Vec<String>, from: usize) -> (r: String)
    requires
        from <= args.len(),
    ensures
        r@ == joined_directives(views_of(args@).skip(from as int)),
    decreases args.len() - from,
{
    let ghost tail = views_of(args@).skip(from as int);
    if from == args.len() {
        proof {
            assert(tail =~= Seq::<Seq<char>>::empty());
        }
        String::new()
    } else {
        let mut s = args[from].clone();
        s.append("\n");
        let rest = joined_from(args, from + 1);
        s.append(rest.as_str());
        proof {
            reveal_strlit("\n");
            assert("\n"@ =~= seq!['\n']);
            assert(views_of(args@).skip(from as int + 1) =~= tail.drop_first());
            assert(s@ =~= joined_directives(tail));
        }
        s
    }
}

/// The pairs of `env` by their text.
pub open spec fn pair_views(env: Seq<(String, String)>) -> Seq<(Seq<char>, Seq<char>)> {
    Seq::new(env.len(), |i: int| (env[i].0@, env[i].1@))
}

/// The five environment overrides derived from an alternate installation
/// root: the checkhash flag fixed to "1", the installation root itself, and
/// the DTD, repository-database and configuration-daemon paths under it.
pub open spec fn alt_root_env(root: Seq<char>) -> Seq<(Seq<char>, Seq<char>)> {
    seq![
        ("SVCCFG_CHECKHASH"@, "1"@),
        ("PKG_INSTALL_ROOT"@, root),
        ("SVCCFG_DTD"@, root + "/usr/share/lib/xml/dtd/service_bundle.dtd.1"@),
        ("SVCCFG_REPOSITORY"@, root + "/etc/svc/repository.db"@),
        ("SVCCFG_CONFIGD_PATH"@, root + "/lib/svc/bin/svc.configd"@),
    ]
}

fn push_pair(env: &mut Vec<(String, String)>, key: &str, value: String)
    ensures
        pair_views(final(env)@) == pair_views(old(env)@).push((key@, value@)),
{
    env.push((key.to_owned(), value));
    proof {
        assert(pair_views(env@) =~= pair_views(env@.drop_last()).push((key@, value@)));
    }
}

/// The scripted configuration-edit invocation: the service-configuration
/// tool with no arguments, the directives joined line by line as its input
/// payload, and, when an alternate root is given, the five overrides derived
/// from it.
pub fn svccfg(args: &Vec<String>, alt_root: Option<&String>) -> (c: CommandSpec)
    ensures
        c.program@ == "/usr/sbin/svccfg"@,
        c.args@.len() == 0,
        (c.stdin matches Some(p) && p@ == joined_directives(views_of(args@))),
        (match alt_root {
            Some(root) => c.env matches Some(ev) && pair_views(ev@) == alt_root_env(root@),
            None => c.env is None,
        }),
{
    let env: Option<Vec<(String, String)>> = match alt_root {
        Some(root) => {
            let mut ev: Vec<(String, String)> = Vec::new();
            proof {
                assert(pair_views(ev@) =~= Seq::<(Seq<char>, Seq<char>)>::empty());
            }
            push_pair(&mut ev, "SVCCFG_CHECKHASH", String::from_str("1"));
            push_pair(&mut ev, "PKG_INSTALL_ROOT", root.clone());
            push_pair(
                &mut ev,
                "SVCCFG_DTD",
                root.clone().concat("/usr/share/lib/xml/dtd/service_bundle.dtd.1"),
            );
            push_pair(&mut ev, "SVCCFG_REPOSITORY", root.clone().concat("/etc/svc/repository.db"));
            push_pair(
                &mut ev,
                "SVCCFG_CONFIGD_PATH",
                root.clone().concat("/lib/svc/bin/svc.configd"),
            );
            proof {
                assert(pair_views(ev@) =~= alt_root_env(root@));
            }
            Some(ev)
        },
        None => None,
    };
    let payload = joined_from(args, 0);
    proof {
        assert(views_of(args@).skip(0) =~= views_of(args@));
    }
    CommandSpec {
        program: String::from_str("/usr/sbin/svccfg"),
        args: Vec::new(),
        env,
        stdin: Some(payload),
    }
}

} // verus!
