//! The yay command lines that aurek runs.
use vstd::prelude::*;
use vstd::string::*;
use crate::args::{Args, check_marker, remove_all};
use crate::text::views;

verus! {

/// `parts` joined with `sep` between neighbours (`[String]::join`).
pub open spec fn joined(parts: Seq<Seq<char>>, sep: Seq<char>) -> Seq<char>
    decreases parts.len(),
{
    if parts.len() == 0 {
        Seq::empty()
    } else if parts.len() == 1 {
        parts[0]
    } else {
        joined(parts.drop_last(), sep) + sep + parts.last()
    }
}

/// The arguments of `yay` for installing `package` after a scan:
/// `-S <package>` and the extra arguments without `--check`.
pub open spec fn install_argv(package: Seq<char>, args: &Args) -> Seq<Seq<char>> {
    seq!["-S"@, package] + remove_all(args.extra(), check_marker())
}

/// The arguments of `yay` when aurek only hands the command on:
/// `-S <package>` when a package is to be installed, `-R <package>` when one
/// is to be removed, then the extra arguments.
pub open spec fn passthrough_argv(args: &Args) -> Seq<Seq<char>> {
    let install = match args.install {
        Some(p) => seq!["-S"@, p@],
        None => Seq::empty(),
    };
    let remove = match args.remove {
        Some(p) => seq!["-R"@, p@],
        None => Seq::empty(),
    };
    install + remove + args.extra()
}

fn append_all(out: &mut Vec<String>, more: &Vec<String>)
    ensures
        views(final(out)@) == views(old(out)@) + views(more@),
{
    let n = more.len();
    let mut i: usize = 0;
    let ghost start = views(out@);
    assert(views(more@).take(0) =~= Seq::<Seq<char>>::empty());
    assert(views(out@) =~= start + views(more@).take(0));
    while i < n
        invariant
            n == more.len(),
            i <= n,
            views(out@) == start + views(more@).take(i as int),
        decreases n - i,
    {
        let ghost before = views(out@);
        out.push(more[i].clone());
        assert(views(out@) =~= before.push(views(more@)[i as int]));
        assert(views(more@).take(i + 1) =~= views(more@).take(i as int).push(views(more@)[i as int]));
        i += 1;
        assert(views(out@) =~= start + views(more@).take(i as int));
    }
    assert(views(more@).take(n as int) =~= views(more@));
}

/// The arguments of `yay` for installing `package` (from `install_package`).
pub fn install_arguments(package: &str, args: &Args) -> (r: Vec<String>)
    ensures
        views(r@) == install_argv(package@, args),
{
    let mut r: Vec<String> = Vec::new();
    r.push("-S".to_owned());
    r.push(package.to_owned());
    let filtered = args.get_filtered_args();
    append_all(&mut r, &filtered);
    r
}

/// The arguments of `yay` when the command is handed on (from `execute_with_args`).
pub fn passthrough_arguments(args: &Args) -> (r: Vec<String>)
    ensures
        views(r@) == passthrough_argv(args),
{
    let mut r: Vec<String> = Vec::new();
    match &args.install {
        Some(p) => {
            r.push("-S".to_owned());
            r.push(p.clone());
        },
        None => {},
    }
    match &args.remove {
        Some(p) => {
            let ghost before = views(r@);
            r.push("-R".to_owned());
            r.push(p.clone());
            assert(views(r@) =~= before + seq!["-R"@, p@]);
        },
        None => {},
    }
    append_all(&mut r, &args.extra_args);
    r
}

/// The command line shown before an installation: `yay -S <package>`, then
/// the arguments, each after a space.
pub open spec fn install_command_line(package: Seq<char>, filtered: Seq<Seq<char>>) -> Seq<char> {
    if filtered.len() == 0 {
        "yay -S "@ + package
    } else {
        "yay -S "@ + package + " "@ + joined(filtered, " "@)
    }
}

/// The command line shown before an installation (from `install_package`).
pub fn install_command_text(package: &str, filtered: &Vec<String>) -> (r: String)
    ensures
        r@ == install_command_line(package@, views(filtered@)),
{
    let mut line = "yay -S ".to_owned();
    line.append(package);
    let n = filtered.len();
    if n == 0 {
        return line;
    }
    line.append(" ");
    let ghost head = line@;
    let mut i: usize = 0;
    assert(views(filtered@).take(0) =~= Seq::<Seq<char>>::empty());
    assert(line@ =~= head + joined(views(filtered@).take(0), " "@));
    while i < n
        invariant
            n == filtered.len(),
            i <= n,
            line@ == head + joined(views(filtered@).take(i as int), " "@),
        decreases n - i,
    {
        let ghost fv = views(filtered@);
        assert(fv.take(i + 1).drop_last() =~= fv.take(i as int));
        if i > 0 {
            line.append(" ");
        }
        line.append(filtered[i].as_str());
        i += 1;
        assert(line@ =~= head + joined(fv.take(i as int), " "@));
    }
    assert(views(filtered@).take(n as int) =~= views(filtered@));
    line
}

/// Whether to warn that paru is used in place of yay (from `warn_about_paru`).
pub fn paru_warning_needed(paru_installed: bool, yay_installed: bool) -> (r: bool)
    ensures
        r == (paru_installed && !yay_installed),
{
    paru_installed && !yay_installed
}

/// Law: the installation that follows a scan runs `yay -S <package>` and
/// never hands `--check` on to yay.
pub proof fn law_install_never_passes_check(package: Seq<char>, args: &Args)
    ensures
        install_argv(package, args).len() >= 2,
        install_argv(package, args)[0] == "-S"@,
        install_argv(package, args)[1] == package,
        forall|i: int|
            2 <= i < install_argv(package, args).len() ==> #[trigger] install_argv(package, args)[i]
                != check_marker(),
{
    crate::args::law_check_marker_filtered(args);
    let f = remove_all(args.extra(), check_marker());
    assert forall|i: int| 2 <= i < install_argv(package, args).len() implies #[trigger] install_argv(
        package,
        args,
    )[i] != check_marker() by {
        assert(install_argv(package, args)[i] == f[i - 2]);
    }
}

} // verus!
