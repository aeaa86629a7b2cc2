//! Assembly of the engine's fixed argument vector.
//!
//! Every invocation starts with the same flags: the status channel on
//! its dedicated descriptor, non-interactive batch mode, fixed-column
//! colon output and the home directory.  When a passphrase will be
//! supplied, the passphrase descriptor is requested, and on engines at
//! or above the loopback threshold the loopback pinentry mode as well.

use vstd::prelude::*;

use crate::text::views_of;
use crate::version::GpgVersion;

verus! {

/// The engine version from which loopback pinentry must be requested
/// explicitly; below it the engine manages passphrase prompting
/// itself and would reject the flag.
pub open spec fn loopback_threshold(v: &GpgVersion) -> bool {
    v.spec_at_least(2, 1)
}

/// The leading fixed flags, with loopback pinentry spliced in right
/// after the binary name when a passphrase is coming and the engine
/// is new enough.
pub open spec fn leading_args(with_passphrase: bool, loopback: bool) -> Seq<Seq<char>> {
    if with_passphrase && loopback {
        seq![
            "gpg"@,
            "--pinentry-mode"@,
            "loopback"@,
            "--status-fd"@,
            "2"@,
            "--no-tty"@,
            "--no-verbose"@,
        ]
    } else {
        seq!["gpg"@, "--status-fd"@, "2"@, "--no-tty"@, "--no-verbose"@]
    }
}

/// The full argument vector for one invocation.
pub open spec fn cmd_args_spec(
    cmd: Seq<Seq<char>>,
    with_passphrase: bool,
    loopback: bool,
    homedir: Seq<char>,
    use_agent: bool,
    options: Option<Seq<Seq<char>>>,
) -> Seq<Seq<char>> {
    leading_args(with_passphrase, loopback) + seq![
        "--fixed-list-mode"@,
        "--batch"@,
        "--with-colons"@,
        "--homedir"@,
        homedir,
    ] + (if with_passphrase {
        seq!["--passphrase-fd"@, "0"@]
    } else {
        Seq::empty()
    }) + (if use_agent {
        seq!["--use-agent"@]
    } else {
        Seq::empty()
    }) + (match options {
        Option::None => Seq::empty(),
        Option::Some(o) => o,
    }) + cmd
}

/// The view of optional extra arguments.
pub open spec fn opt_args_view(o: Option<Vec<String>>) -> Option<Seq<Seq<char>>> {
    match o {
        Option::None => Option::None,
        Option::Some(v) => Option::Some(views_of(v@)),
    }
}

/// Build the full argument vector for one engine invocation.
pub fn generate_cmd_args(
    cmd_args: Vec<String>,
    passphrase: &Option<String>,
    version: &GpgVersion,
    homedir: String,
    use_agent: bool,
    options: Option<Vec<String>>,
) -> (args: Vec<String>)
    ensures
        views_of(args@) == cmd_args_spec(
            views_of(cmd_args@),
            passphrase.is_some(),
            loopback_threshold(version),
            homedir@,
            use_agent,
            opt_args_view(options),
        ),
{
    let ghost opts_view = opt_args_view(options);
    let with_passphrase = passphrase.is_some();
    let mut args: Vec<String> = Vec::new();
    args.push(String::from_str("gpg"));
    if with_passphrase && version.at_least(2, 1) {
        args.push(String::from_str("--pinentry-mode"));
        args.push(String::from_str("loopback"));
    }
    args.push(String::from_str("--status-fd"));
    args.push(String::from_str("2"));
    args.push(String::from_str("--no-tty"));
    args.push(String::from_str("--no-verbose"));
    proof {
        assert(views_of(args@) =~= leading_args(
            with_passphrase,
            loopback_threshold(version),
        ));
    }
    let ghost lead = views_of(args@);
    args.push(String::from_str("--fixed-list-mode"));
    args.push(String::from_str("--batch"));
    args.push(String::from_str("--with-colons"));
    args.push(String::from_str("--homedir"));
    let ghost homedir_view = homedir@;
    args.push(homedir);
    proof {
        assert(views_of(args@) =~= lead + seq![
            "--fixed-list-mode"@,
            "--batch"@,
            "--with-colons"@,
            "--homedir"@,
            homedir_view,
        ]);
    }
    let ghost mid = views_of(args@);
    if with_passphrase {
        args.push(String::from_str("--passphrase-fd"));
        args.push(String::from_str("0"));
    }
    proof {
        assert(views_of(args@) =~= mid + (if with_passphrase {
            seq!["--passphrase-fd"@, "0"@]
        } else {
            Seq::<Seq<char>>::empty()
        }));
    }
    let ghost mid2 = views_of(args@);
    if use_agent {
        args.push(String::from_str("--use-agent"));
    }
    proof {
        assert(views_of(args@) =~= mid2 + (if use_agent {
            seq!["--use-agent"@]
        } else {
            Seq::<Seq<char>>::empty()
        }));
    }
    let ghost mid3 = views_of(args@);
    match options {
        Option::None => {},
        Option::Some(mut o) => {
            let ghost o_views = views_of(o@);
            args.append(&mut o);
            proof {
                assert(views_of(args@) =~= mid3 + o_views);
            }
        },
    }
    let ghost mid4 = views_of(args@);
    let mut cmd = cmd_args;
    let ghost cmd_views = views_of(cmd@);
    args.append(&mut cmd);
    proof {
        assert(views_of(args@) =~= mid4 + cmd_views);
        assert(views_of(args@) =~= cmd_args_spec(
            cmd_views,
            with_passphrase,
            loopback_threshold(version),
            homedir_view,
            use_agent,
            opts_view,
        ));
    }
    args
}

} // verus!
