//! The shell state container: variables, functions, builtins, options,
//! directory stack, working directory and the last exit code.

use vstd::prelude::*;

use crate::ast::{FunctionDefinition, Program};
use crate::env::ShellEnvironment;
use std::rc::Rc;

verus! {

/// The option flags the engine consults.
#[derive(Clone, Copy, PartialEq, Eq, Structural, Debug)]
pub struct ShellOptions {
    /// `set -o pipefail`: a pipeline's exit code is its rightmost failure.
    pub pipefail: bool,
    /// The shell is a login shell.
    pub login_shell: bool,
    /// The shell is interactive.
    pub interactive: bool,
    /// Prompt strings get a second expansion pass.
    pub expand_prompt_strings: bool,
    /// `cd`/`pwd` resolve symlinks physically.
    pub do_not_resolve_symlinks_when_changing_dir: bool,
}

impl ShellOptions {
    /// The default option set: everything off.
    pub fn new() -> (r: ShellOptions)
        ensures
            r == (ShellOptions {
                pipefail: false,
                login_shell: false,
                interactive: false,
                expand_prompt_strings: false,
                do_not_resolve_symlinks_when_changing_dir: false,
            }),
    {
        ShellOptions {
            pipefail: false,
            login_shell: false,
            interactive: false,
            expand_prompt_strings: false,
            do_not_resolve_symlinks_when_changing_dir: false,
        }
    }
}

/// The builtins the engine can dispatch to.
#[derive(Clone, Copy, PartialEq, Eq, Structural, Debug)]
pub enum BuiltinKind {
    Colon,
    True,
    False,
    Export,
    Let,
    Popd,
    Pushd,
    Dirs,
    Pwd,
    Test,
    Times,
    Suspend,
    Echo,
    SetOptions,
    Return,
    Exit,
    Break,
    Continue,
    Unset,
    BuiltinDispatch,
    Brushctl,
    Unimplemented,
}

/// One entry of the builtin registry.
#[derive(Clone, Copy, PartialEq, Eq, Structural, Debug)]
pub struct BuiltinRegistration {
    pub kind: BuiltinKind,
    /// A disabled builtin is skipped during resolution.
    pub disabled: bool,
    /// Special builtins preempt function lookup.
    pub special: bool,
    /// Declaration-aware builtins see assignment structure in their
    /// arguments.
    pub declaration: bool,
}

/// A registered function: attributes beside a shared parsed body.
#[derive(Debug)]
pub struct FuncEntry {
    pub exported: bool,
    pub traced: bool,
    pub body: Rc<Program>,
}

/// The shell.
#[derive(Debug)]
pub struct Shell {
    pub env: ShellEnvironment,
    pub funcs: Vec<(String, FuncEntry)>,
    pub builtins: Vec<(String, BuiltinRegistration)>,
    pub options: ShellOptions,
    pub directory_stack: Vec<String>,
    pub working_dir: String,
    pub last_exit_code: u8,
    pub shell_name: Option<String>,
    pub jobs_count: usize,
    pub pid: i32,
}

/// Relies on `Rc::clone`: the returned pointer shares the same allocation,
/// so it carries the same value.
#[verifier::external_body]
pub fn rc_clone<T>(v: &Rc<T>) -> (r: Rc<T>)
    ensures
        r == *v,
{
    Rc::clone(v)
}

/// Registries whose entries line up by name and value resolve every name
/// identically.
proof fn lemma_builtin_find_pointwise(
    a: Seq<(String, BuiltinRegistration)>,
    b: Seq<(String, BuiltinRegistration)>,
    n: Seq<char>,
)
    requires
        a.len() == b.len(),
        forall|i: int| 0 <= i < a.len() ==> (#[trigger] a[i]).0@ == b[i].0@ && a[i].1 == b[i].1,
    ensures
        spec_builtin_find(a, n) == spec_builtin_find(b, n),
    decreases a.len(),
{
    if a.len() > 0 {
        assert(a.last() == a[a.len() - 1]);
        assert(b.last() == b[a.len() - 1]);
        assert forall|i: int| 0 <= i < a.drop_last().len() implies (
        #[trigger] a.drop_last()[i]).0@ == b.drop_last()[i].0@ && a.drop_last()[i].1
            == b.drop_last()[i].1 by {
            assert(a.drop_last()[i] == a[i]);
            assert(b.drop_last()[i] == b[i]);
        }
        lemma_builtin_find_pointwise(a.drop_last(), b.drop_last(), n);
    }
}

/// The same, for the function registry.
proof fn lemma_func_find_pointwise(
    a: Seq<(String, FuncEntry)>,
    b: Seq<(String, FuncEntry)>,
    n: Seq<char>,
)
    requires
        a.len() == b.len(),
        forall|i: int| 0 <= i < a.len() ==> (#[trigger] a[i]).0@ == b[i].0@ && a[i].1 == b[i].1,
    ensures
        spec_func_find(a, n) == spec_func_find(b, n),
    decreases a.len(),
{
    if a.len() > 0 {
        assert(a.last() == a[a.len() - 1]);
        assert(b.last() == b[a.len() - 1]);
        assert forall|i: int| 0 <= i < a.drop_last().len() implies (
        #[trigger] a.drop_last()[i]).0@ == b.drop_last()[i].0@ && a.drop_last()[i].1
            == b.drop_last()[i].1 by {
            assert(a.drop_last()[i] == a[i]);
            assert(b.drop_last()[i] == b[i]);
        }
        lemma_func_find_pointwise(a.drop_last(), b.drop_last(), n);
    }
}

/// The registration a builtin registry holds for `name`, searching latest
/// registrations first.
pub open spec fn spec_builtin_find(s: Seq<(String, BuiltinRegistration)>, name: Seq<char>) -> Option<
    BuiltinRegistration,
>
    decreases s.len(),
{
    if s.len() == 0 {
        None
    } else if s.last().0@ == name {
        Some(s.last().1)
    } else {
        spec_builtin_find(s.drop_last(), name)
    }
}

/// The definition a function registry holds for `name`.
pub open spec fn spec_func_find(
    s: Seq<(String, FuncEntry)>,
    name: Seq<char>,
) -> Option<FuncEntry>
    decreases s.len(),
{
    if s.len() == 0 {
        None
    } else if s.last().0@ == name {
        Some(s.last().1)
    } else {
        spec_func_find(s.drop_last(), name)
    }
}

impl Shell {
    /// The environment invariant the shell maintains.
    pub open spec fn wf(self) -> bool {
        self.env.wf()
    }

    /// A fresh shell: empty global scope, no functions, the given builtin
    /// registry, everything else at its defaults.
    pub fn new(builtins: Vec<(String, BuiltinRegistration)>) -> (r: Shell)
        ensures
            r.wf(),
            r.env.spec_depth() == 1,
            forall|n: Seq<char>| r.env.spec_lookup(n) is None,
            r.builtins@ == builtins@,
            r.funcs@.len() == 0,
            r.directory_stack@.len() == 0,
            r.last_exit_code == 0,
            r.options == (ShellOptions {
                pipefail: false,
                login_shell: false,
                interactive: false,
                expand_prompt_strings: false,
                do_not_resolve_symlinks_when_changing_dir: false,
            }),
            r.jobs_count == 0,
            r.shell_name is None,
            r.working_dir@ =~= Seq::<char>::empty(),
            r.pid == 0,
    {
        Shell {
            env: ShellEnvironment::new(),
            funcs: Vec::new(),
            builtins,
            options: ShellOptions::new(),
            directory_stack: Vec::new(),
            working_dir: String::new(),
            last_exit_code: 0,
            shell_name: None,
            jobs_count: 0,
            pid: 0,
        }
    }

    /// The registration `name` resolves to in the builtin registry.
    pub fn find_builtin(&self, name: &str) -> (r: Option<BuiltinRegistration>)
        ensures
            r == spec_builtin_find(self.builtins@, name@),
    {
        let n = self.builtins.len();
        let mut i = n;
        proof {
            assert(self.builtins@.subrange(0, n as int) =~= self.builtins@);
        }
        loop
            invariant
                i <= n,
                n == self.builtins@.len(),
                spec_builtin_find(self.builtins@, name@) == spec_builtin_find(
                    self.builtins@.subrange(0, i as int),
                    name@,
                ),
            decreases i,
        {
            if i == 0 {
                proof {
                    assert(self.builtins@.subrange(0, 0) =~= Seq::<(
                        String,
                        BuiltinRegistration,
                    )>::empty());
                }
                return None;
            }
            let entry = &self.builtins[i - 1];
            proof {
                assert(self.builtins@.subrange(0, i as int).last() == self.builtins@[i - 1]);
                assert(self.builtins@.subrange(0, i as int).drop_last() =~= self.builtins@.subrange(
                    0,
                    i - 1,
                ));
            }
            if crate::strings::str_eq(entry.0.as_str(), name) {
                return Some(entry.1);
            }
            i = i - 1;
        }
    }

    /// Installs (or replaces) a builtin under `name`.
    pub fn register_builtin(&mut self, name: &str, registration: BuiltinRegistration)
        ensures
            spec_builtin_find(final(self).builtins@, name@) == Some(registration),
            forall|n: Seq<char>|
                n != name@ ==> spec_builtin_find(final(self).builtins@, n) == spec_builtin_find(
                    old(self).builtins@,
                    n,
                ),
            final(self).env == old(self).env,
            final(self).funcs@ == old(self).funcs@,
            final(self).options == old(self).options,
            final(self).directory_stack@ == old(self).directory_stack@,
            final(self).working_dir == old(self).working_dir,
            final(self).last_exit_code == old(self).last_exit_code,
    {
        let ghost pre = self.builtins@;
        let entry = (String::from_str(name), registration);
        self.builtins.push(entry);
        proof {
            assert(self.builtins@.drop_last() =~= pre);
            assert forall|n: Seq<char>| n != name@ implies spec_builtin_find(self.builtins@, n)
                == spec_builtin_find(pre, n) by {}
        }
    }

    /// The definition `name` resolves to in the function registry.
    pub fn find_func(&self, name: &str) -> (r: Option<&FuncEntry>)
        ensures
            match r {
                Some(d) => spec_func_find(self.funcs@, name@) == Some(*d),
                None => spec_func_find(self.funcs@, name@) is None,
            },
    {
        let n = self.funcs.len();
        let mut i = n;
        proof {
            assert(self.funcs@.subrange(0, n as int) =~= self.funcs@);
        }
        loop
            invariant
                i <= n,
                n == self.funcs@.len(),
                spec_func_find(self.funcs@, name@) == spec_func_find(
                    self.funcs@.subrange(0, i as int),
                    name@,
                ),
            decreases i,
        {
            if i == 0 {
                proof {
                    assert(self.funcs@.subrange(0, 0) =~= Seq::<(String, FuncEntry)>::empty());
                }
                return None;
            }
            let entry = &self.funcs[i - 1];
            proof {
                assert(self.funcs@.subrange(0, i as int).last() == self.funcs@[i - 1]);
                assert(self.funcs@.subrange(0, i as int).drop_last() =~= self.funcs@.subrange(
                    0,
                    i - 1,
                ));
            }
            if crate::strings::str_eq(entry.0.as_str(), name) {
                return Some(&entry.1);
            }
            i = i - 1;
        }
    }

    /// Registers a function body under `name`; a later registration shadows
    /// an earlier one.
    pub fn register_function(&mut self, name: &str, def: FunctionDefinition)
        ensures
            (match spec_func_find(final(self).funcs@, name@) {
                Some(d) => d.body == def.body && d.exported == def.exported && d.traced
                    == def.traced,
                None => false,
            }),
            forall|n: Seq<char>|
                n != name@ ==> spec_func_find(final(self).funcs@, n) == spec_func_find(
                    old(self).funcs@,
                    n,
                ),
            final(self).env == old(self).env,
            final(self).builtins@ == old(self).builtins@,
            final(self).options == old(self).options,
            final(self).directory_stack@ == old(self).directory_stack@,
            final(self).working_dir == old(self).working_dir,
            final(self).last_exit_code == old(self).last_exit_code,
    {
        let ghost pre = self.funcs@;
        let fe = FuncEntry { exported: def.exported, traced: def.traced, body: def.body };
        let entry = (String::from_str(name), fe);
        self.funcs.push(entry);
        proof {
            assert(self.funcs@.drop_last() =~= pre);
            assert forall|n: Seq<char>| n != name@ implies spec_func_find(self.funcs@, n)
                == spec_func_find(pre, n) by {}
        }
    }

    /// Sets or clears the exported attribute of a registered function.
    /// Returns whether the function exists.
    pub fn set_func_exported(&mut self, name: &str, exported: bool) -> (found: bool)
        ensures
            found == (spec_func_find(old(self).funcs@, name@) is Some),
            found ==> (match (
                spec_func_find(final(self).funcs@, name@),
                spec_func_find(old(self).funcs@, name@),
            ) {
                (Some(d2), Some(d1)) => d2.body == d1.body && d2.exported == exported
                    && d2.traced == d1.traced,
                _ => false,
            }),
            !found ==> final(self).funcs@ == old(self).funcs@,
            forall|n: Seq<char>|
                n != name@ ==> spec_func_find(final(self).funcs@, n) == spec_func_find(
                    old(self).funcs@,
                    n,
                ),
            final(self).env == old(self).env,
            final(self).builtins@ == old(self).builtins@,
            final(self).options == old(self).options,
            final(self).directory_stack@ == old(self).directory_stack@,
            final(self).working_dir == old(self).working_dir,
            final(self).last_exit_code == old(self).last_exit_code,
    {
        let ghost pre = self.funcs@;
        let replacement: FuncEntry = match self.find_func(name) {
            Some(e) => FuncEntry { exported, traced: e.traced, body: rc_clone(&e.body) },
            None => {
                return false;
            },
        };
        let entry = (String::from_str(name), replacement);
        self.funcs.push(entry);
        proof {
            assert(self.funcs@.drop_last() =~= pre);
            assert forall|n: Seq<char>| n != name@ implies spec_func_find(self.funcs@, n)
                == spec_func_find(pre, n) by {}
        }
        true
    }

    /// The copied state a subshell runs against: observably the same shell —
    /// every name resolves to an observably equal variable, the registries
    /// resolve identically, and the options, directories and codes carry
    /// over — but independently owned, so mutations of the copy never reach
    /// the original.
    pub fn clone_for_subshell(&self) -> (r: Shell)
        requires
            self.wf(),
        ensures
            r.wf(),
            r.env.spec_depth() == self.env.spec_depth(),
            forall|n: Seq<char>|
                crate::env::spec_opt_var_obs_eq(r.env.spec_lookup(n), self.env.spec_lookup(n)),
            forall|n: Seq<char>| spec_func_find(r.funcs@, n) == spec_func_find(self.funcs@, n),
            forall|n: Seq<char>|
                spec_builtin_find(r.builtins@, n) == spec_builtin_find(self.builtins@, n),
            r.options == self.options,
            r.working_dir@ == self.working_dir@,
            r.directory_stack@.len() == self.directory_stack@.len(),
            forall|i: int|
                0 <= i < self.directory_stack@.len() ==> (#[trigger] r.directory_stack@[i])@
                    == self.directory_stack@[i]@,
            r.last_exit_code == self.last_exit_code,
            r.jobs_count == self.jobs_count,
            r.pid == self.pid,
    {
        let nf = self.funcs.len();
        let mut funcs: Vec<(String, FuncEntry)> = Vec::new();
        let mut i: usize = 0;
        while i < nf
            invariant
                i <= nf,
                nf == self.funcs@.len(),
                funcs@.len() == i,
                forall|k: int|
                    0 <= k < i ==> (#[trigger] funcs@[k]).0@ == self.funcs@[k].0@
                        && funcs@[k].1 == self.funcs@[k].1,
            decreases nf - i,
        {
            let entry = &self.funcs[i];
            funcs.push(
                (
                    entry.0.clone(),
                    FuncEntry {
                        exported: entry.1.exported,
                        traced: entry.1.traced,
                        body: rc_clone(&entry.1.body),
                    },
                ),
            );
            i = i + 1;
        }
        let nb = self.builtins.len();
        let mut builtins: Vec<(String, BuiltinRegistration)> = Vec::new();
        let mut j: usize = 0;
        while j < nb
            invariant
                j <= nb,
                nb == self.builtins@.len(),
                builtins@.len() == j,
                forall|k: int|
                    0 <= k < j ==> (#[trigger] builtins@[k]).0@ == self.builtins@[k].0@
                        && builtins@[k].1 == self.builtins@[k].1,
            decreases nb - j,
        {
            let entry = &self.builtins[j];
            builtins.push((entry.0.clone(), entry.1));
            j = j + 1;
        }
        let r = Shell {
            env: self.env.deep_clone(),
            funcs,
            builtins,
            options: self.options,
            directory_stack: crate::strings::clone_string_vec(&self.directory_stack),
            working_dir: self.working_dir.clone(),
            last_exit_code: self.last_exit_code,
            shell_name: match &self.shell_name {
                Some(s) => Some(s.clone()),
                None => None,
            },
            jobs_count: self.jobs_count,
            pid: self.pid,
        };
        proof {
            assert forall|n: Seq<char>| spec_func_find(r.funcs@, n) == spec_func_find(
                self.funcs@,
                n,
            ) by {
                lemma_func_find_pointwise(r.funcs@, self.funcs@, n);
            }
            assert forall|n: Seq<char>| spec_builtin_find(r.builtins@, n) == spec_builtin_find(
                self.builtins@,
                n,
            ) by {
                lemma_builtin_find_pointwise(r.builtins@, self.builtins@, n);
            }
        }
        r
    }

    /// `~`-shortening: a working directory under the home directory renders
    /// with the home prefix replaced by a tilde.
    pub fn tilde_shorten(dir: &str, home: &str) -> (r: String)
        ensures
            home@.len() > 0 && home@.len() <= dir@.len() && dir@.subrange(0, home@.len() as int)
                == home@ ==> r@ == "~"@ + dir@.subrange(home@.len() as int, dir@.len() as int),
            !(home@.len() > 0 && home@.len() <= dir@.len() && dir@.subrange(
                0,
                home@.len() as int,
            ) == home@) ==> r@ == dir@,
    {
        let dlen = dir.unicode_len();
        let hlen = home.unicode_len();
        if hlen > 0 && hlen <= dlen {
            let prefix = dir.substring_char(0, hlen);
            if crate::strings::str_eq(prefix, home) {
                let rest = dir.substring_char(hlen, dlen);
                return String::from_str("~").concat(rest);
            }
        }
        String::from_str(dir)
    }

    /// `pushd`: remembers the working directory on the stack and moves to
    /// `path`.  The real process-level directory change is the host's.
    pub fn push_directory(&mut self, path: String)
        ensures
            final(self).directory_stack@ =~= old(self).directory_stack@.push(
                old(self).working_dir,
            ),
            final(self).working_dir == path,
            final(self).env == old(self).env,
            final(self).funcs@ == old(self).funcs@,
            final(self).builtins@ == old(self).builtins@,
            final(self).options == old(self).options,
            final(self).last_exit_code == old(self).last_exit_code,
    {
        let mut tmp = path;
        core::mem::swap(&mut self.working_dir, &mut tmp);
        self.directory_stack.push(tmp);
    }

    /// `popd`'s state change: removes the top of the directory stack and,
    /// when `change_dir` is set, moves back to it.  On an empty stack it
    /// changes nothing and reports `None`.
    pub fn pop_directory(&mut self, change_dir: bool) -> (r: Option<String>)
        ensures
            old(self).directory_stack@.len() == 0 ==> {
                &&& r is None
                &&& final(self).directory_stack@ =~= old(self).directory_stack@
                &&& final(self).working_dir == old(self).working_dir
            },
            old(self).directory_stack@.len() > 0 ==> {
                &&& r matches Some(p) && p@ == old(self).directory_stack@.last()@
                &&& final(self).directory_stack@ =~= old(self).directory_stack@.drop_last()
                &&& change_dir ==> final(self).working_dir == old(self).directory_stack@.last()
                &&& !change_dir ==> final(self).working_dir@ == old(self).working_dir@
            },
            final(self).env == old(self).env,
            final(self).funcs@ == old(self).funcs@,
            final(self).builtins@ == old(self).builtins@,
            final(self).options == old(self).options,
            final(self).last_exit_code == old(self).last_exit_code,
    {
        match self.directory_stack.pop() {
            Some(top) => {
                if change_dir {
                    let popped = top.clone();
                    let mut tmp = top;
                    core::mem::swap(&mut self.working_dir, &mut tmp);
                    Some(popped)
                } else {
                    Some(top)
                }
            },
            None => None,
        }
    }
}

/// The standard builtin registry: the engine's builtins under their usual
/// names, with `[` as the bracket form of `test`.  Resolution is by name at
/// dispatch time; a later registration of the same name wins.
pub fn default_builtins() -> (r: Vec<(String, BuiltinRegistration)>) {
    let mut v: Vec<(String, BuiltinRegistration)> = Vec::new();
    let plain = |kind: BuiltinKind| -> BuiltinRegistration {
        BuiltinRegistration { kind, disabled: false, special: false, declaration: false }
    };
    v.push((String::from_str(":"), BuiltinRegistration {
        kind: BuiltinKind::Colon,
        disabled: false,
        special: true,
        declaration: false,
    }));
    v.push((String::from_str("true"), plain(BuiltinKind::True)));
    v.push((String::from_str("false"), plain(BuiltinKind::False)));
    v.push((String::from_str("export"), BuiltinRegistration {
        kind: BuiltinKind::Export,
        disabled: false,
        special: true,
        declaration: true,
    }));
    v.push((String::from_str("let"), plain(BuiltinKind::Let)));
    v.push((String::from_str("popd"), plain(BuiltinKind::Popd)));
    v.push((String::from_str("pushd"), plain(BuiltinKind::Pushd)));
    v.push((String::from_str("dirs"), plain(BuiltinKind::Dirs)));
    v.push((String::from_str("pwd"), plain(BuiltinKind::Pwd)));
    v.push((String::from_str("test"), plain(BuiltinKind::Test)));
    v.push((String::from_str("["), plain(BuiltinKind::Test)));
    v.push((String::from_str("times"), plain(BuiltinKind::Times)));
    v.push((String::from_str("suspend"), plain(BuiltinKind::Suspend)));
    v.push((String::from_str("echo"), plain(BuiltinKind::Echo)));
    v.push((String::from_str("set"), BuiltinRegistration {
        kind: BuiltinKind::SetOptions,
        disabled: false,
        special: true,
        declaration: false,
    }));
    v.push((String::from_str("return"), BuiltinRegistration {
        kind: BuiltinKind::Return,
        disabled: false,
        special: true,
        declaration: false,
    }));
    v.push((String::from_str("exit"), BuiltinRegistration {
        kind: BuiltinKind::Exit,
        disabled: false,
        special: true,
        declaration: false,
    }));
    v.push((String::from_str("unset"), BuiltinRegistration {
        kind: BuiltinKind::Unset,
        disabled: false,
        special: true,
        declaration: false,
    }));
    v.push((String::from_str("builtin"), plain(BuiltinKind::BuiltinDispatch)));
    v.push((String::from_str("break"), BuiltinRegistration {
        kind: BuiltinKind::Break,
        disabled: false,
        special: true,
        declaration: false,
    }));
    v.push((String::from_str("continue"), BuiltinRegistration {
        kind: BuiltinKind::Continue,
        disabled: false,
        special: true,
        declaration: false,
    }));
    v
}

impl Shell {
    /// Starts configuring a shell.
    pub fn builder() -> (r: ShellBuilder)
        ensures
            r.shell_name is None,
            r.pid == 0,
    {
        ShellBuilder::new()
    }

    /// The registered functions, read-only.
    pub fn funcs(&self) -> (r: &Vec<(String, FuncEntry)>)
        ensures
            r@ == self.funcs@,
    {
        &self.funcs
    }

    /// The builtin registry, read-only.
    pub fn builtins(&self) -> (r: &Vec<(String, BuiltinRegistration)>)
        ensures
            r@ == self.builtins@,
    {
        &self.builtins
    }

    /// The variable environment, read-only.
    pub fn variables(&self) -> (r: &ShellEnvironment)
        ensures
            *r == self.env,
    {
        &self.env
    }

    /// The tracked working directory.
    pub fn working_dir(&self) -> (r: &String)
        ensures
            *r == self.working_dir,
    {
        &self.working_dir
    }

    /// Moves the shell to a new working directory: `OLDPWD` takes the prior
    /// directory, `PWD` the new one, and the tracked directory follows.
    /// The call succeeds unless one of those two variables is readonly.
    /// The process-level directory change is the host's.
    pub fn set_working_dir(&mut self, path: String) -> (r: Result<(), crate::error::Error>)
        requires
            old(self).wf(),
        ensures
            final(self).wf(),
            final(self).env.spec_depth() == old(self).env.spec_depth(),
            r is Ok ==> final(self).working_dir == path,
            forall|n: Seq<char>|
                n != "PWD"@ && n != "OLDPWD"@ ==> final(self).env.spec_lookup(n) == old(
                    self,
                ).env.spec_lookup(n),
            (!(old(self).env.spec_lookup("OLDPWD"@) matches Some(p) && p.readonly) && !(old(
                self,
            ).env.spec_lookup("PWD"@) matches Some(q) && q.readonly)) ==> {
                &&& r is Ok
                &&& final(self).working_dir == path
                &&& (final(self).env.spec_lookup("PWD"@) matches Some(v) && (
                v.value matches crate::variables::ShellValue::Scalar(s) && s@ == path@))
                &&& (final(self).env.spec_lookup("OLDPWD"@) matches Some(v2) && (
                v2.value matches crate::variables::ShellValue::Scalar(s2) && s2@ == old(
                    self,
                ).working_dir@))
            },
            r is Err ==> ((old(self).env.spec_lookup("OLDPWD"@) matches Some(p) && p.readonly)
                || (old(self).env.spec_lookup("PWD"@) matches Some(q) && q.readonly)),
    {
        proof {
            reveal_strlit("PWD");
            reveal_strlit("OLDPWD");
            assert(("PWD"@).len() == 3);
            assert(("OLDPWD"@).len() == 6);
        }
        let prior = self.working_dir.clone();
        match self.env.update_or_add(
            "OLDPWD",
            crate::variables::ShellValueLiteral::Scalar(prior),
            crate::env::VariableMutation::Keep,
            crate::env::EnvironmentLookup::Anywhere,
            crate::env::EnvironmentScope::Global,
        ) {
            Ok(_) => {},
            Err(e) => {
                return Err(e);
            },
        }
        match self.env.update_or_add(
            "PWD",
            crate::variables::ShellValueLiteral::Scalar(path.clone()),
            crate::env::VariableMutation::Keep,
            crate::env::EnvironmentLookup::Anywhere,
            crate::env::EnvironmentScope::Global,
        ) {
            Ok(_) => {},
            Err(e) => {
                return Err(e);
            },
        }
        self.working_dir = path;
        Ok(())
    }
}

/// Configuration a shell is built from.
#[derive(Debug)]
pub struct ShellBuilder {
    pub options: ShellOptions,
    pub shell_name: Option<String>,
    pub builtins: Vec<(String, BuiltinRegistration)>,
    pub working_dir: String,
    pub pid: i32,
}

impl ShellBuilder {
    /// A builder with the standard builtin set and default options.
    pub fn new() -> (r: ShellBuilder)
        ensures
            r.shell_name is None,
            r.pid == 0,
    {
        ShellBuilder {
            options: ShellOptions::new(),
            shell_name: None,
            builtins: default_builtins(),
            working_dir: String::new(),
            pid: 0,
        }
    }

    /// Marks the shell a login shell.
    pub fn login_shell(self, yes: bool) -> (r: ShellBuilder)
        ensures
            r.options.login_shell == yes,
            r.options.pipefail == self.options.pipefail,
            r.options.interactive == self.options.interactive,
    {
        ShellBuilder {
            options: ShellOptions { login_shell: yes, ..self.options },
            ..self
        }
    }

    /// Marks the shell interactive.
    pub fn interactive(self, yes: bool) -> (r: ShellBuilder)
        ensures
            r.options.interactive == yes,
            r.options.login_shell == self.options.login_shell,
    {
        ShellBuilder {
            options: ShellOptions { interactive: yes, ..self.options },
            ..self
        }
    }

    /// Names the shell, as `$0` and the prompt's base name see it.
    pub fn shell_name(self, name: String) -> (r: ShellBuilder)
        ensures
            r.shell_name matches Some(n) && n == name,
            r.options == self.options,
    {
        ShellBuilder { shell_name: Some(name), ..self }
    }

    /// Records the shell's process id.
    pub fn pid(self, pid: i32) -> (r: ShellBuilder)
        ensures
            r.pid == pid,
            r.options == self.options,
    {
        ShellBuilder { pid, ..self }
    }

    /// Sets the starting working directory.
    pub fn working_dir(self, dir: String) -> (r: ShellBuilder)
        ensures
            r.working_dir == dir,
            r.options == self.options,
    {
        ShellBuilder { working_dir: dir, ..self }
    }

    /// Builds the shell.
    pub fn build(self) -> (r: Shell)
        ensures
            r.wf(),
            r.env.spec_depth() == 1,
            forall|n: Seq<char>| r.env.spec_lookup(n) is None,
            r.options == self.options,
            r.shell_name == self.shell_name,
            r.working_dir == self.working_dir,
            r.pid == self.pid,
            r.builtins@ == self.builtins@,
            r.last_exit_code == 0,
            r.directory_stack@.len() == 0,
    {
        Shell {
            env: ShellEnvironment::new(),
            funcs: Vec::new(),
            builtins: self.builtins,
            options: self.options,
            directory_stack: Vec::new(),
            working_dir: self.working_dir,
            last_exit_code: 0,
            shell_name: self.shell_name,
            jobs_count: 0,
            pid: self.pid,
        }
    }
}

/// `pushd X; popd` leaves the working directory and the directory stack
/// unchanged.  The hypotheses are exactly what `push_directory` and
/// `pop_directory` (with a directory change) guarantee.
pub proof fn lemma_pushd_popd_round_trip(
    s0: Shell,
    s1: Shell,
    s2: Shell,
    path: String,
)
    requires
        s1.directory_stack@ == s0.directory_stack@.push(s0.working_dir),
        s1.working_dir == path,
        s1.directory_stack@.len() > 0,
        s2.directory_stack@ == s1.directory_stack@.drop_last(),
        s2.working_dir == s1.directory_stack@.last(),
    ensures
        s2.directory_stack@ == s0.directory_stack@,
        s2.working_dir == s0.working_dir,
{
    assert(s1.directory_stack@.drop_last() =~= s0.directory_stack@);
}

} // verus!
