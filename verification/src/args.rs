//! The command line of aurek and the yay arguments derived from it.
use vstd::prelude::*;
use vstd::string::*;
use crate::text::views;

verus! {

/// The parsed command line.
pub struct Args {
    /// The package to install (`-S`, `--install`).
    pub install: Option<String>,
    /// The package to remove (`-R`, `--remove`).
    pub remove: Option<String>,
    /// Skip the security scan (`--no-scan`).
    pub no_scan: bool,
    /// Do not use the local language model (`--no-llm`).
    pub no_llm: bool,
    /// Path of the model file (`--model`).
    pub model_path: Option<String>,
    /// Print less (`-q`, `--quiet`).
    pub quiet: bool,
    /// Arguments after `--`, handed on to yay.
    pub extra_args: Vec<String>,
}

/// The marker among the extra arguments that asks for a check.
pub open spec fn check_marker() -> Seq<char> {
    "--check"@
}

/// `s` with every element equal to `x` left out, the others kept in order.
pub open spec fn remove_all(s: Seq<Seq<char>>, x: Seq<char>) -> Seq<Seq<char>>
    decreases s.len(),
{
    if s.len() == 0 {
        s
    } else {
        let r = remove_all(s.drop_last(), x);
        if s.last() == x {
            r
        } else {
            r.push(s.last())
        }
    }
}

impl Args {
    /// The extra arguments, as text.
    pub open spec fn extra(&self) -> Seq<Seq<char>> {
        views(self.extra_args@)
    }

    /// Whether `--check` is among the extra arguments.
    pub fn has_check_flag(&self) -> (r: bool)
        ensures
            r == self.extra().contains(check_marker()),
    {
        let marker = "--check".to_owned();
        let n = self.extra_args.len();
        let mut i: usize = 0;
        while i < n
            invariant
                n == self.extra_args.len(),
                i <= n,
                marker@ == check_marker(),
                forall|j: int| 0 <= j < i ==> self.extra()[j] != check_marker(),
            decreases n - i,
        {
            if self.extra_args[i] == marker {
                assert(self.extra()[i as int] == check_marker());
                return true;
            }
            i += 1;
        }
        false
    }

    /// The extra arguments without `--check`, in their order.
    pub fn get_filtered_args(&self) -> (r: Vec<String>)
        ensures
            views(r@) == remove_all(self.extra(), check_marker()),
    {
        let marker = "--check".to_owned();
        let n = self.extra_args.len();
        let mut r: Vec<String> = Vec::new();
        let mut i: usize = 0;
        assert(self.extra().take(0) =~= Seq::<Seq<char>>::empty());
        while i < n
            invariant
                n == self.extra_args.len(),
                i <= n,
                marker@ == check_marker(),
                views(r@) == remove_all(self.extra().take(i as int), check_marker()),
            decreases n - i,
        {
            assert(self.extra().take(i + 1).drop_last() =~= self.extra().take(i as int));
            if self.extra_args[i] != marker {
                let ghost before = views(r@);
                r.push(self.extra_args[i].clone());
                assert(views(r@) =~= before.push(self.extra()[i as int]));
            }
            i += 1;
        }
        assert(self.extra().take(n as int) =~= self.extra());
        r
    }
}

/// Filtering never leaves the marker behind.
pub proof fn lemma_remove_all_excludes(s: Seq<Seq<char>>, x: Seq<char>)
    ensures
        !remove_all(s, x).contains(x),
    decreases s.len(),
{
    if s.len() > 0 {
        lemma_remove_all_excludes(s.drop_last(), x);
        let r = remove_all(s.drop_last(), x);
        if s.last() != x {
            assert forall|i: int| 0 <= i < r.push(s.last()).len() implies r.push(s.last())[i]
                != x by {
                if i < r.len() {
                    assert(r[i] != x);
                }
            }
        }
    }
}

/// Filtering shortens a sequence exactly when the marker occurs in it.
pub proof fn lemma_remove_all_len(s: Seq<Seq<char>>, x: Seq<char>)
    ensures
        remove_all(s, x).len() <= s.len(),
        remove_all(s, x).len() < s.len() <==> s.contains(x),
    decreases s.len(),
{
    if s.len() > 0 {
        lemma_remove_all_len(s.drop_last(), x);
        let p = s.drop_last();
        if p.contains(x) {
            let i = choose|i: int| 0 <= i < p.len() && p[i] == x;
            assert(s[i] == x);
        }
        if s.contains(x) && s.last() != x {
            let i = choose|i: int| 0 <= i < s.len() && s[i] == x;
            assert(p[i] == x);
        }
        if s.last() == x {
            assert(s[s.len() - 1] == x);
        }
    }
}

/// Filtering a filtered sequence changes nothing.
pub proof fn lemma_remove_all_idempotent(s: Seq<Seq<char>>, x: Seq<char>)
    ensures
        remove_all(remove_all(s, x), x) == remove_all(s, x),
{
    lemma_remove_all_excludes(s, x);
    lemma_remove_all_len(remove_all(s, x), x);
    lemma_remove_all_same_when_absent(remove_all(s, x), x);
}

proof fn lemma_remove_all_same_when_absent(s: Seq<Seq<char>>, x: Seq<char>)
    requires
        !s.contains(x),
    ensures
        remove_all(s, x) == s,
    decreases s.len(),
{
    if s.len() > 0 {
        assert(!s.drop_last().contains(x)) by {
            if s.drop_last().contains(x) {
                let i = choose|i: int| 0 <= i < s.drop_last().len() && s.drop_last()[i] == x;
                assert(s[i] == x);
            }
        }
        lemma_remove_all_same_when_absent(s.drop_last(), x);
        assert(s[s.len() - 1] != x);
        assert(s.drop_last().push(s.last()) =~= s);
    }
}

/// Law: the arguments handed on to yay never hold `--check`; they are shorter
/// than the extra arguments exactly when `--check` was given; and filtering
/// them again changes nothing.
pub proof fn law_check_marker_filtered(args: &Args)
    ensures
        !remove_all(args.extra(), check_marker()).contains(check_marker()),
        remove_all(args.extra(), check_marker()).len() < args.extra().len() <==> args.extra().contains(
            check_marker(),
        ),
        remove_all(remove_all(args.extra(), check_marker()), check_marker()) == remove_all(
            args.extra(),
            check_marker(),
        ),
{
    lemma_remove_all_excludes(args.extra(), check_marker());
    lemma_remove_all_len(args.extra(), check_marker());
    lemma_remove_all_idempotent(args.extra(), check_marker());
}

} // verus!
